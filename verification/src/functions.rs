//! Functions available to the model by the function calling api.
//!
//! A tool identifier maps to exactly one executor.  Dispatch, argument
//! parsing, and the path confinement check happen here, verified; the
//! version-history executors run here too, while the filesystem
//! executors are handed back to the caller as validated actions, since
//! the library itself never touches the filesystem.

pub mod common;
pub mod list_commits;
pub mod list_files;
pub mod query_ast;
pub mod show_commit;

use vstd::prelude::*;

use crate::functions::common::{path_spills_up, spec_spills_up};
use crate::functions::list_commits::{commit_lines, list_commits, CommitView};
use crate::functions::show_commit::{commit_header, patch_text, show_commit, CommitDetailView, PatchView};
use crate::json::{keyed_object, render_keyed_object, string_arg_outcome, string_argument};
use crate::text::{chars_to_string, push_str_chars};

verus! {

/// A validated request that only the binary, with its filesystem
/// access, can carry out.
pub enum ToolAction {
    /// Describe the entries of the directory at `path`.
    ListFiles { path: String },
    /// Hand back the text of the file at `path`.
    ReadFile { path: String },
    /// Outline the definitions of the file (or directory of files) at
    /// `path`.
    Outline { path: String },
}

/// What applying a tool call comes to: a finished content for the tool
/// message, or a validated action the caller must perform and render.
pub enum ApplyStep {
    Done(String),
    Perform(ToolAction),
}

/// `{"result": <text>}`.
pub open spec fn rendered_result(text: Seq<char>) -> Seq<char> {
    keyed_object("result"@, text)
}

/// `{"error": <text>}`.
pub open spec fn rendered_error(text: Seq<char>) -> Seq<char> {
    keyed_object("error"@, text)
}

/// Wrap a tool outcome for the model: a failing tool never aborts the
/// conversation, it only reports its failure as content.
pub fn render_outcome(outcome: &Result<String, String>) -> (r: String)
    ensures
        r@ == (match outcome {
            Ok(v) => rendered_result(v@),
            Err(e) => rendered_error(e@),
        }),
{
    match outcome {
        Ok(v) => render_keyed_object("result", v.as_str()),
        Err(e) => render_keyed_object("error", e.as_str()),
    }
}

/// A path is absolute when it starts at the root.
pub open spec fn is_absolute_path(p: Seq<char>) -> bool {
    p.len() > 0 && p[0] == '/'
}

/// What validating the `path` argument yields: the confined path, or
/// the exact complaint — about the arguments, an absolute path, or a
/// path that spills above the working directory.
pub open spec fn confined_path_outcome(
    args: Seq<char>,
    abs_msg: Seq<char>,
    spill_msg: Seq<char>,
) -> Result<Seq<char>, Seq<char>> {
    match string_arg_outcome(args, "path"@) {
        Err(m) => Err(m),
        Ok(p) => if is_absolute_path(p) {
            Err(abs_msg)
        } else if spec_spills_up(p) {
            Err(spill_msg)
        } else {
            Ok(p)
        },
    }
}

/// Extract and confine the `path` argument.
fn confined_path(arguments: &str, abs_msg: &str, spill_msg: &str) -> (r: Result<String, String>)
    ensures
        r matches Ok(p) ==> confined_path_outcome(arguments@, abs_msg@, spill_msg@) == Ok::<
            Seq<char>,
            Seq<char>,
        >(p@),
        r matches Err(m) ==> confined_path_outcome(arguments@, abs_msg@, spill_msg@) == Err::<
            Seq<char>,
            Seq<char>,
        >(m@),
{
    let path = match string_argument(arguments, "path") {
        Err(e) => {
            return Err(e);
        },
        Ok(p) => p,
    };
    let absolute = path.as_str().unicode_len() > 0 && path.as_str().get_char(0) == '/';
    if absolute {
        return Err(String::from_str(abs_msg));
    }
    if path_spills_up(path.as_str()) {
        return Err(String::from_str(spill_msg));
    }
    Ok(path)
}

/// The tool identifiers the registry knows.
pub open spec fn known_tool(name: Seq<char>) -> bool {
    name == "q"@ || name == "f"@ || name == "F"@ || name == "g"@ || name == "G"@
}

/// The complaint for an unknown identifier, reported gracefully rather
/// than crashing the turn.
pub open spec fn no_such_function(name: Seq<char>) -> Seq<char> {
    "no such function: `"@ + name + "`"@
}

/// What applying one call must come to, tried in the order the
/// registry tries identifiers.
pub open spec fn apply_step_ok(name: Seq<char>, args: Seq<char>, r: ApplyStep) -> bool {
    if name == "f"@ {
        match confined_path_outcome(
            args,
            "only paths relative to the current directory are available to list"@,
            "cannot list files outside the current directory"@,
        ) {
            Err(m) => r matches ApplyStep::Done(s) && s@ == rendered_error(m),
            Ok(p) => r matches ApplyStep::Perform(a) && (a matches ToolAction::ListFiles { path }
                && path@ == p),
        }
    } else if name == "F"@ {
        match confined_path_outcome(
            args,
            "only paths relative to the current directory are available to read"@,
            "cannot read files outside the current directory"@,
        ) {
            Err(m) => r matches ApplyStep::Done(s) && s@ == rendered_error(m),
            Ok(p) => r matches ApplyStep::Perform(a) && (a matches ToolAction::ReadFile { path }
                && path@ == p),
        }
    } else if name == "q"@ {
        match confined_path_outcome(
            args,
            "cannot read files outside the current directory"@,
            "cannot read files outside the current directory"@,
        ) {
            Err(m) => r matches ApplyStep::Done(s) && s@ == rendered_error(m),
            Ok(p) => r matches ApplyStep::Perform(a) && (a matches ToolAction::Outline { path }
                && path@ == p),
        }
    } else if name == "g"@ {
        r matches ApplyStep::Done(s) && ((exists|cs: Seq<CommitView>|
            s@ == rendered_result(commit_lines(cs))) || (exists|m: Seq<char>|
            s@ == rendered_error(m)))
    } else if name == "G"@ {
        match string_arg_outcome(args, "hash"@) {
            Err(m) => r matches ApplyStep::Done(s) && s@ == rendered_error(m),
            Ok(_) => r matches ApplyStep::Done(s) && ((exists|
                d: CommitDetailView,
                ls: Seq<PatchView>,
            |
                s@ == rendered_result(commit_header(d) + patch_text(ls))) || (exists|m: Seq<char>|
                s@ == rendered_error(m))),
        }
    } else {
        r matches ApplyStep::Done(s) && s@ == rendered_error(no_such_function(name))
    }
}

/// Apply a function call to the conversation.
///
/// `q`, `f` and `F` validate their path and become actions for the
/// caller to perform; `g` and `G` run the version-history executors
/// directly; anything else reports `no such function`.
pub fn apply(name: &str, arguments: &str) -> (r: ApplyStep)
    ensures
        apply_step_ok(name@, arguments@, r),
{
    if crate::text::str_eq(name, "f") {
        match confined_path(
            arguments,
            "only paths relative to the current directory are available to list",
            "cannot list files outside the current directory",
        ) {
            Ok(path) => ApplyStep::Perform(ToolAction::ListFiles { path }),
            Err(m) => ApplyStep::Done(render_keyed_object("error", m.as_str())),
        }
    } else if crate::text::str_eq(name, "F") {
        match confined_path(
            arguments,
            "only paths relative to the current directory are available to read",
            "cannot read files outside the current directory",
        ) {
            Ok(path) => ApplyStep::Perform(ToolAction::ReadFile { path }),
            Err(m) => ApplyStep::Done(render_keyed_object("error", m.as_str())),
        }
    } else if crate::text::str_eq(name, "q") {
        match confined_path(
            arguments,
            "cannot read files outside the current directory",
            "cannot read files outside the current directory",
        ) {
            Ok(path) => ApplyStep::Perform(ToolAction::Outline { path }),
            Err(m) => ApplyStep::Done(render_keyed_object("error", m.as_str())),
        }
    } else if crate::text::str_eq(name, "g") {
        let outcome = list_commits(arguments);
        let content = render_outcome(&outcome);
        proof {
            match outcome {
                Ok(v) => {
                    let cs = choose|cs: Seq<CommitView>| v@ == commit_lines(cs);
                    assert(content@ == rendered_result(commit_lines(cs)));
                },
                Err(e) => {
                    assert(content@ == rendered_error(e@));
                },
            }
        }
        ApplyStep::Done(content)
    } else if crate::text::str_eq(name, "G") {
        let outcome = show_commit(arguments);
        let content = render_outcome(&outcome);
        proof {
            match outcome {
                Ok(v) => {
                    let (d, ls) = choose|d: CommitDetailView, ls: Seq<PatchView>|
                        v@ == commit_header(d) + patch_text(ls);
                    assert(content@ == rendered_result(commit_header(d) + patch_text(ls)));
                },
                Err(e) => {
                    assert(content@ == rendered_error(e@));
                },
            }
        }
        ApplyStep::Done(content)
    } else {
        let mut msg: Vec<char> = Vec::new();
        push_str_chars(&mut msg, "no such function: `");
        push_str_chars(&mut msg, name);
        push_str_chars(&mut msg, "`");
        proof {
            assert(msg@ =~= no_such_function(name@));
        }
        let msg = chars_to_string(&msg);
        ApplyStep::Done(render_keyed_object("error", msg.as_str()))
    }
}

} // verus!
