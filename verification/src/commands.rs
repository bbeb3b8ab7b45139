//! The command interpreter: a flushed command buffer is parsed into a verb
//! and its arguments, and a recognized, well-formed command becomes a
//! filesystem request that the surrounding binary performs.
use vstd::prelude::*;
use vstd::string::StringExecFns;

use crate::app::App;
use crate::file_ops::DirectoryItem;
use crate::text::join_path;
use crate::text::join_path_spec;
use crate::text::join_spaces;
use crate::text::join_tokens_from;
use crate::text::str_to_chars;
use crate::text::token_is_verb;
use crate::text::tokenize;
use crate::text::tokens_of;
use crate::text::vec_suffix;
use crate::text::verb_matches;
use crate::text::views_of;

verus! {

/// A filesystem mutation that a command asks for; the surrounding binary
/// performs it and reports the outcome back to the state.
#[derive(Debug)]
pub enum FsRequest {
    Rename { from: String, to: String },
    Delete { path: String, is_directory: bool },
    CreateDirectory { path: String },
}

/// A command string with a single leading `:` removed, if present.
pub open spec fn strip_colon(s: Seq<char>) -> Seq<char> {
    if s.len() > 0 && s[0] == ':' {
        s.skip(1)
    } else {
        s
    }
}

/// The tokens of a command string: the marker stripped, then split on
/// ASCII whitespace.
pub open spec fn command_tokens(s: Seq<char>) -> Seq<Seq<char>> {
    tokens_of(strip_colon(s))
}

/// Whether a token names the rename command, in either accepted form.
pub open spec fn is_rename_verb(t: Seq<char>) -> bool {
    verb_matches(t, "RENAME"@) || verb_matches(t, "REN"@)
}

/// Whether a token names the delete command, in either accepted form.
pub open spec fn is_delete_verb(t: Seq<char>) -> bool {
    verb_matches(t, "DELETE"@) || verb_matches(t, "DEL"@)
}

/// Whether a token names the create-directory command, in either accepted
/// form.
pub open spec fn is_directory_verb(t: Seq<char>) -> bool {
    verb_matches(t, "DIRECTORY"@) || verb_matches(t, "DIR"@)
}

/// What interpreting a command never touches: everything but the error
/// text; the mode and the buffer are handled by the surrounding dispatch.
pub open spec fn untouched_by_command(pre: App, post: App) -> bool {
    &&& post.current_directory == pre.current_directory
    &&& post.selection_index == pre.selection_index
    &&& post.directory_contents == pre.directory_contents
    &&& post.buffered_file_name == pre.buffered_file_name
    &&& post.file_buffer == pre.file_buffer
    &&& post.window_height == pre.window_height
}

/// The whole effect of interpreting one command: which request comes out
/// and which error text is recorded, for every input.
pub open spec fn command_effect(pre: App, post: App, cmd: Seq<char>, r: Option<FsRequest>) -> bool {
    let toks = command_tokens(cmd);
    &&& untouched_by_command(pre, post)
    &&& (if toks.len() == 0 {
        &&& r is None
        &&& (post.error matches Some(e) && e@ == "Not a command"@)
    } else if is_rename_verb(toks[0]) {
        if toks.len() >= 2 && pre.selection_index is Some {
            &&& post.error == pre.error
            &&& (r matches Some(FsRequest::Rename { from, to }) && from@ == pre.selected_path_spec()
                && to@ == join_path_spec(pre.current_directory@, join_spaces(toks.skip(1))))
        } else {
            &&& r is None
            &&& (post.error matches Some(e) && e@ == "Wrong number of arguments supplied"@)
        }
    } else if is_delete_verb(toks[0]) {
        if pre.selection_index is Some {
            &&& post.error == pre.error
            &&& (r matches Some(FsRequest::Delete { path, is_directory }) && path@
                == pre.selected_path_spec() && is_directory == pre.selected_is_directory())
        } else {
            &&& r is None
            &&& (post.error matches Some(e) && e@ == "Nothing to delete"@)
        }
    } else if is_directory_verb(toks[0]) {
        if toks.len() >= 2 {
            &&& post.error == pre.error
            &&& (r matches Some(FsRequest::CreateDirectory { path }) && path@ == join_path_spec(
                pre.current_directory@,
                join_spaces(toks.skip(1)),
            ))
        } else {
            &&& r is None
            &&& (post.error matches Some(e) && e@ == "Wrong number of arguments supplied"@)
        }
    } else {
        &&& r is None
        &&& (post.error matches Some(e) && e@ == "Not a command"@)
    })
}

/// Interpreting a command inside mode dispatch leaves the mode and the
/// buffer alone; `App::execute_command` changes both around this call.
pub open spec fn process_post(pre: App, post: App, cmd: Seq<char>, r: Option<FsRequest>) -> bool {
    &&& command_effect(pre, post, cmd, r)
    &&& post.mode == pre.mode
    &&& post.command_buffer == pre.command_buffer
}

/// Parses a flushed command buffer: strips a single leading `:`, splits on
/// ASCII whitespace, matches the verb without regard to case, and either
/// returns the filesystem request to perform or records why there is none.
pub fn process_command(command_string: String, app: &mut App) -> (r: Option<FsRequest>)
    requires
        old(app).wf(),
    ensures
        final(app).wf(),
        process_post(*old(app), *final(app), command_string@, r),
{
    let chars = str_to_chars(command_string.as_str());
    let has_colon: bool = chars.len() > 0 && chars[0] == ':';
    let stripped: Vec<char> = if has_colon {
        vec_suffix(&chars, 1)
    } else {
        chars
    };
    proof {
        assert(stripped@ == strip_colon(command_string@));
    }
    let toks = tokenize(&stripped);
    proof {
        assert(views_of(toks@) == command_tokens(command_string@));
        assert(views_of(toks@).len() == toks@.len());
        if toks@.len() > 0 {
            assert(views_of(toks@)[0] == toks@[0]@);
        }
    }
    if toks.len() == 0 {
        app.error = Some(String::from_str("Not a command"));
        return None;
    }
    if token_is_verb(&toks[0], "RENAME") || token_is_verb(&toks[0], "REN") {
        if toks.len() >= 2 && app.selection_index.is_some() {
            let from = app.get_selected_file_path().unwrap();
            let name = join_tokens_from(&toks, 1);
            let to = join_path(app.current_directory.as_str(), name.as_str());
            proof {
                assert(views_of(toks@).skip(1) == command_tokens(command_string@).skip(1));
            }
            Some(FsRequest::Rename { from, to })
        } else {
            app.error = Some(String::from_str("Wrong number of arguments supplied"));
            None
        }
    } else if token_is_verb(&toks[0], "DELETE") || token_is_verb(&toks[0], "DEL") {
        if app.selection_index.is_some() {
            let path = app.get_selected_file_path().unwrap();
            let i = app.selection_index.unwrap();
            let is_directory = match &app.directory_contents[i] {
                DirectoryItem::Directory(_) => true,
                DirectoryItem::File(_) => false,
            };
            Some(FsRequest::Delete { path, is_directory })
        } else {
            app.error = Some(String::from_str("Nothing to delete"));
            None
        }
    } else if token_is_verb(&toks[0], "DIRECTORY") || token_is_verb(&toks[0], "DIR") {
        if toks.len() >= 2 {
            let name = join_tokens_from(&toks, 1);
            let path = join_path(app.current_directory.as_str(), name.as_str());
            proof {
                assert(views_of(toks@).skip(1) == command_tokens(command_string@).skip(1));
            }
            Some(FsRequest::CreateDirectory { path })
        } else {
            app.error = Some(String::from_str("Wrong number of arguments supplied"));
            None
        }
    } else {
        app.error = Some(String::from_str("Not a command"));
        None
    }
}

} // verus!
