//! The browser state machine: current directory, sorted listing, cursor and
//! pagination, mode transitions, command buffer, clipboard and last error.
//! Every method takes and returns plain values; the surrounding binary does
//! the terminal and filesystem work and hands the results back in.
use vstd::prelude::*;
use vstd::string::StrSliceExecFns;
use vstd::string::StringExecFns;

use crate::file_ops::DirectoryItem;
use crate::file_ops::item_path;
use crate::file_ops::items_sorted;
use crate::file_ops::sort_items;
use crate::text::basename;
use crate::text::parent_dir;
use crate::text::join_path_spec;
use crate::text::base_name;
use crate::text::chars_to_string;
use crate::text::join_path;
use crate::text::parent_directory;

verus! {

/// The two reachable input modes; the third variant is an unused
/// placeholder kept for compatibility and never entered.
#[derive(Clone, Copy, Debug, PartialEq, Eq, Structural)]
pub enum Mode {
    Browse,
    Command,
    _Select,
}

/// The whole state of the browser.
pub struct App {
    pub current_directory: String,
    pub mode: Mode,
    pub selection_index: Option<usize>,
    pub directory_contents: Vec<DirectoryItem>,
    pub command_buffer: Vec<char>,
    pub error: Option<String>,
    pub buffered_file_name: Option<String>,
    pub window_height: u16,
    pub file_buffer: Option<Vec<u8>>,
}

/// The cursor after a move one row down: one more, stopped at the last row.
pub open spec fn sel_down(s: Option<usize>, len: int) -> Option<usize> {
    match s {
        None => None,
        Some(i) => if i + 1 < len {
            Some((i + 1) as usize)
        } else {
            Some(i)
        },
    }
}

/// The cursor after a move one row up: one less, stopped at the top.
pub open spec fn sel_up(s: Option<usize>) -> Option<usize> {
    match s {
        None => None,
        Some(i) => if i > 0 {
            Some((i - 1) as usize)
        } else {
            Some(0usize)
        },
    }
}

/// The cursor after a jump one column left: a full viewport back, stopped
/// at the top.
pub open spec fn sel_left(s: Option<usize>, rows: int) -> Option<usize> {
    match s {
        None => None,
        Some(i) => if i >= rows {
            Some((i - rows) as usize)
        } else {
            Some(0usize)
        },
    }
}

/// The cursor after a jump one column right: a full viewport forward,
/// stopped at the last row.
pub open spec fn sel_right(s: Option<usize>, rows: int, len: int) -> Option<usize> {
    match s {
        None => None,
        Some(i) => if i + rows <= len - 1 {
            Some((i + rows) as usize)
        } else {
            Some((len - 1) as usize)
        },
    }
}

/// The cursor after the listing length changed: gone when the listing is
/// empty, the top when it was gone, otherwise bounded by the new length.
pub open spec fn revalidate_sel(s: Option<usize>, len: int) -> Option<usize> {
    if len == 0 {
        None
    } else {
        match s {
            None => Some(0usize),
            Some(i) => if (i as int) < len {
                Some(i)
            } else {
                Some((len - 1) as usize)
            },
        }
    }
}

impl App {
    /// The invariants of a reachable state: the cursor is absent exactly
    /// when the listing is empty and otherwise stays inside it, the listing
    /// is sorted, and the clipboard bytes and name are set together.
    pub open spec fn wf(self) -> bool {
        &&& (self.selection_index is None <==> self.directory_contents@.len() == 0)
        &&& (match self.selection_index {
            Some(i) => (i as int) < self.directory_contents@.len(),
            None => true,
        })
        &&& items_sorted(self.directory_contents@)
        &&& (self.buffered_file_name is Some <==> self.file_buffer is Some)
    }

    /// The path of the selected entry, or empty when nothing is selected.
    pub open spec fn selected_path_spec(self) -> Seq<char> {
        match self.selection_index {
            Some(i) => item_path(self.directory_contents@[i as int]),
            None => Seq::empty(),
        }
    }

    /// Whether the selected entry is a subdirectory.
    pub open spec fn selected_is_directory(self) -> bool {
        match self.selection_index {
            Some(i) => self.directory_contents@[i as int] is Directory,
            None => false,
        }
    }

    /// The path of the selected entry when it is a subdirectory.
    pub open spec fn selected_directory(self) -> Option<Seq<char>> {
        match self.selection_index {
            Some(i) => match self.directory_contents@[i as int] {
                DirectoryItem::Directory(p) => Some(p@),
                _ => None,
            },
            None => None,
        }
    }

    /// A fresh state at the root of the filesystem, with the given listing
    /// of the root and a terminal of the given height. The fixed chrome of
    /// the display (borders and command panel) takes five rows.
    pub fn new(terminal_height: u16, root_listing: Vec<DirectoryItem>) -> (app: App)
        requires
            terminal_height >= 5,
        ensures
            app.wf(),
            app.current_directory@ == seq!['/'],
            app.mode == Mode::Browse,
            app.window_height == terminal_height - 5,
            app.directory_contents@.to_multiset() == root_listing@.to_multiset(),
            items_sorted(app.directory_contents@),
            app.selection_index == revalidate_sel(Some(0usize), root_listing@.len() as int),
            app.command_buffer@ == Seq::<char>::empty(),
            app.error is None,
            app.buffered_file_name is None,
            app.file_buffer is None,
    {
        let root = String::from_str("/");
        proof {
            reveal_strlit("/");
            assert("/"@ =~= seq!['/']);
        }
        let mut app = App {
            current_directory: root,
            mode: Mode::Browse,
            selection_index: Some(0),
            directory_contents: Vec::new(),
            command_buffer: Vec::new(),
            error: None,
            buffered_file_name: None,
            window_height: terminal_height - 5,
            file_buffer: None,
        };
        app.apply_listing(root_listing);
        app
    }

    /// Replaces the listing with the given entries, sorted, and bounds the
    /// cursor against the new length.
    fn apply_listing(&mut self, entries: Vec<DirectoryItem>)
        ensures
            final(self).directory_contents@.to_multiset() == entries@.to_multiset(),
            final(self).directory_contents@.len() == entries@.len(),
            items_sorted(final(self).directory_contents@),
            final(self).selection_index == revalidate_sel(
                old(self).selection_index,
                entries@.len() as int,
            ),
            *final(self) == (App {
                directory_contents: final(self).directory_contents,
                selection_index: final(self).selection_index,
                ..*old(self)
            }),
    {
        let mut entries = entries;
        sort_items(&mut entries);
        self.directory_contents = entries;
        let len = self.directory_contents.len();
        if len == 0 {
            self.selection_index = None;
        } else {
            match self.selection_index {
                None => {
                    self.selection_index = Some(0);
                },
                Some(i) => {
                    if i >= len {
                        self.selection_index = Some(len - 1);
                    }
                },
            }
        }
    }

    /// Rebuilds the listing from a fresh read of the current directory.
    pub fn populate_files(&mut self, entries: Vec<DirectoryItem>)
        requires
            old(self).wf(),
        ensures
            final(self).wf(),
            final(self).directory_contents@.to_multiset() == entries@.to_multiset(),
            final(self).directory_contents@.len() == entries@.len(),
            items_sorted(final(self).directory_contents@),
            final(self).selection_index == revalidate_sel(
                old(self).selection_index,
                entries@.len() as int,
            ),
            *final(self) == (App {
                directory_contents: final(self).directory_contents,
                selection_index: final(self).selection_index,
                ..*old(self)
            }),
    {
        self.apply_listing(entries);
    }

    /// Moves the cursor one row down, stopping at the last row.
    pub fn move_selection_down(&mut self)
        requires
            old(self).wf(),
        ensures
            final(self).wf(),
            *final(self) == (App {
                selection_index: sel_down(
                    old(self).selection_index,
                    old(self).directory_contents@.len() as int,
                ),
                ..*old(self)
            }),
    {
        if let Some(i) = self.selection_index {
            if i < self.directory_contents.len() - 1 {
                self.selection_index = Some(i + 1);
            }
        }
    }

    /// Moves the cursor one row up, stopping at the top.
    pub fn move_selection_up(&mut self)
        requires
            old(self).wf(),
        ensures
            final(self).wf(),
            *final(self) == (App { selection_index: sel_up(old(self).selection_index), ..*old(self) }),
    {
        if let Some(i) = self.selection_index {
            if i > 0 {
                self.selection_index = Some(i - 1);
            }
        }
    }

    /// Jumps the cursor one column left: a full viewport of rows back.
    pub fn move_selection_left(&mut self)
        requires
            old(self).wf(),
        ensures
            final(self).wf(),
            *final(self) == (App {
                selection_index: sel_left(
                    old(self).selection_index,
                    old(self).window_height as int,
                ),
                ..*old(self)
            }),
    {
        if let Some(i) = self.selection_index {
            let rows = self.window_height as usize;
            if i >= rows {
                self.selection_index = Some(i - rows);
            } else {
                self.selection_index = Some(0);
            }
        }
    }

    /// Jumps the cursor one column right: a full viewport of rows forward,
    /// stopping at the last row.
    pub fn move_selection_right(&mut self)
        requires
            old(self).wf(),
        ensures
            final(self).wf(),
            *final(self) == (App {
                selection_index: sel_right(
                    old(self).selection_index,
                    old(self).window_height as int,
                    old(self).directory_contents@.len() as int,
                ),
                ..*old(self)
            }),
    {
        if let Some(i) = self.selection_index {
            let rows = self.window_height as usize;
            let last = self.directory_contents.len() - 1;
            if rows <= last && i <= last - rows {
                self.selection_index = Some(i + rows);
            } else {
                self.selection_index = Some(last);
            }
        }
    }

    /// Re-derives the viewport height from the terminal height, which may
    /// change between frames; the fixed chrome takes five rows.
    pub fn update_window_height(&mut self, terminal_height: u16)
        requires
            old(self).wf(),
            terminal_height >= 5,
        ensures
            final(self).wf(),
            *final(self) == (App { window_height: (terminal_height - 5) as u16, ..*old(self) }),
    {
        self.window_height = terminal_height - 5;
    }

    /// Switches between browsing and command entry; the cursor is untouched.
    pub fn change_mode(&mut self, mode: Mode)
        requires
            old(self).wf(),
        ensures
            final(self).wf(),
            *final(self) == (App { mode, ..*old(self) }),
    {
        self.mode = mode;
    }

    /// Appends one keystroke to the command buffer.
    pub fn add_to_command_buffer(&mut self, character: char)
        requires
            old(self).wf(),
        ensures
            final(self).wf(),
            final(self).command_buffer@ == old(self).command_buffer@.push(character),
            *final(self) == (App { command_buffer: final(self).command_buffer, ..*old(self) }),
    {
        self.command_buffer.push(character);
    }

    /// Leaves command entry without dispatching: back to browsing with the
    /// buffer discarded.
    pub fn cancel_command(&mut self)
        requires
            old(self).wf(),
        ensures
            final(self).wf(),
            final(self).command_buffer@.len() == 0,
            *final(self) == (App {
                mode: Mode::Browse,
                command_buffer: final(self).command_buffer,
                ..*old(self)
            }),
    {
        self.mode = Mode::Browse;
        self.command_buffer = Vec::new();
    }

    /// Removes the last buffered keystroke, but never the only one: a
    /// single-character buffer cannot be shortened this way.
    pub fn command_backspace(&mut self)
        requires
            old(self).wf(),
        ensures
            final(self).wf(),
            final(self).command_buffer@ == (if old(self).command_buffer@.len() > 1 {
                old(self).command_buffer@.drop_last()
            } else {
                old(self).command_buffer@
            }),
            *final(self) == (App { command_buffer: final(self).command_buffer, ..*old(self) }),
    {
        if self.command_buffer.len() > 1 {
            self.command_buffer.pop();
        }
    }

    /// The buffered keystrokes as one string.
    pub fn get_command_buffer_as_string(&self) -> (r: String)
        ensures
            r@ == self.command_buffer@,
    {
        chars_to_string(&self.command_buffer)
    }

    /// Flushes the command buffer to the interpreter and returns to
    /// browsing, whatever the outcome; the interpreter sees a snapshot and
    /// the live buffer is already clear when it runs.
    pub fn execute_command(&mut self) -> (r: Option<crate::commands::FsRequest>)
        requires
            old(self).wf(),
        ensures
            final(self).wf(),
            final(self).mode == Mode::Browse,
            final(self).command_buffer@.len() == 0,
            crate::commands::command_effect(
                *old(self),
                *final(self),
                old(self).command_buffer@,
                r,
            ),
    {
        let command_string = self.get_command_buffer_as_string();
        self.command_buffer = Vec::new();
        let r = crate::commands::process_command(command_string, self);
        self.mode = Mode::Browse;
        r
    }

    /// The full path of the selected entry, if any.
    pub fn get_selected_file_path(&self) -> (r: Option<String>)
        requires
            self.wf(),
        ensures
            r is Some <==> self.selection_index is Some,
            (r matches Some(p) ==> p@ == self.selected_path_spec()),
    {
        match self.selection_index {
            None => None,
            Some(i) => match &self.directory_contents[i] {
                DirectoryItem::File((p, _)) => Some(p.clone()),
                DirectoryItem::Directory(p) => Some(p.clone()),
            },
        }
    }

    /// The path to descend into: the selected entry, when it is a
    /// subdirectory.
    pub fn open_folder_target(&self) -> (r: Option<String>)
        requires
            self.wf(),
        ensures
            r is Some <==> self.selected_directory() is Some,
            (r matches Some(p) ==> self.selected_directory() == Some(p@)),
    {
        match self.selection_index {
            None => None,
            Some(i) => match &self.directory_contents[i] {
                DirectoryItem::Directory(p) => Some(p.clone()),
                DirectoryItem::File(_) => None,
            },
        }
    }

    /// Descends into the selected subdirectory, given the fresh listing of
    /// that directory (or the failure to read it): on success the cursor
    /// returns to the top of the new listing; on failure everything stays
    /// and the message is recorded.
    pub fn open_folder(&mut self, listing: Result<Vec<DirectoryItem>, String>)
        requires
            old(self).wf(),
            old(self).selected_directory() is Some,
        ensures
            final(self).wf(),
            (listing matches Err(e) ==> *final(self) == (App {
                error: Some(e),
                ..*old(self)
            })),
            (listing matches Ok(entries) ==> (old(self).selected_directory() matches Some(d)
                && refresh_to(*old(self), *final(self), d, entries@) && final(self).error == old(
                self,
            ).error)),
    {
        match listing {
            Err(e) => {
                self.error = Some(e);
            },
            Ok(entries) => {
                let i = self.selection_index.unwrap();
                let p = match &self.directory_contents[i] {
                    DirectoryItem::Directory(p) => p.clone(),
                    DirectoryItem::File(_) => {
                        proof {
                            assert(false);
                        }
                        String::new()
                    },
                };
                self.current_directory = p;
                self.selection_index = Some(0);
                self.apply_listing(entries);
            },
        }
    }

    /// The parent directory to ascend into, or nothing at the root of the
    /// filesystem, which is a fixed point.
    pub fn move_up_directory_target(&self) -> (r: Option<String>)
        ensures
            r is None <==> self.current_directory@ == seq!['/'],
            (r matches Some(p) ==> p@ == parent_dir(self.current_directory@)),
    {
        let cd: &str = self.current_directory.as_str();
        let n: usize = cd.unicode_len();
        if n == 1 && cd.get_char(0) == '/' {
            proof {
                assert(cd@ =~= seq!['/']);
            }
            None
        } else {
            proof {
                assert(cd@ != seq!['/']);
            }
            Some(parent_directory(cd))
        }
    }

    /// Ascends to the parent directory, given the fresh listing of that
    /// directory: on success the cursor returns to the top; on failure
    /// everything stays and the failure is handed back to the caller.
    pub fn move_up_directory(&mut self, listing: Result<Vec<DirectoryItem>, String>) -> (r: Result<
        (),
        String,
    >)
        requires
            old(self).wf(),
            old(self).current_directory@ != seq!['/'],
        ensures
            final(self).wf(),
            (listing matches Ok(entries) ==> (refresh_to(
                *old(self),
                *final(self),
                parent_dir(old(self).current_directory@),
                entries@,
            ) && final(self).error == old(self).error && r is Ok)),
            (listing matches Err(e) ==> (*final(self) == *old(self) && r == Err::<(), String>(e))),
    {
        match listing {
            Err(e) => Err(e),
            Ok(entries) => {
                let parent = parent_directory(self.current_directory.as_str());
                self.current_directory = parent;
                self.selection_index = Some(0);
                self.apply_listing(entries);
                Ok(())
            },
        }
    }

    /// Takes the bytes read from the selected file into the clipboard,
    /// together with the file's base name; a failed read leaves the
    /// clipboard unset and records the message.
    pub fn load_selected_into_file_buffer(
        &mut self,
        read_result: Option<Result<Vec<u8>, String>>,
    )
        requires
            old(self).wf(),
            read_result is Some ==> old(self).selection_index is Some,
        ensures
            final(self).wf(),
            load_post(*old(self), *final(self), read_result),
    {
        match read_result {
            None => {
                self.file_buffer = None;
                self.buffered_file_name = None;
            },
            Some(Err(e)) => {
                self.file_buffer = None;
                self.buffered_file_name = None;
                self.error = Some(e);
            },
            Some(Ok(bytes)) => {
                let path = self.get_selected_file_path().unwrap();
                self.buffered_file_name = Some(base_name(path.as_str()));
                self.file_buffer = Some(bytes);
            },
        }
    }

    /// The clipboard: the buffered bytes and the remembered base name.
    pub fn get_buffered_file(&self) -> (r: (Option<Vec<u8>>, Option<String>))
        ensures
            (match r.0 {
                Some(b) => self.file_buffer matches Some(fb) && b@ == fb@,
                None => self.file_buffer is None,
            }),
            r.1 == self.buffered_file_name,
    {
        let bytes = match &self.file_buffer {
            Some(b) => Some(clone_bytes(b)),
            None => None,
        };
        let name = match &self.buffered_file_name {
            Some(n) => Some(n.clone()),
            None => None,
        };
        (bytes, name)
    }

    /// Where a paste would write: the remembered base name inside the
    /// current directory, when the clipboard is set.
    pub fn write_buffer_destination(&self) -> (r: Option<String>)
        ensures
            r is Some <==> self.buffered_file_name is Some,
            (self.buffered_file_name matches Some(n) ==> (r matches Some(d) && d@
                == join_path_spec(self.current_directory@, n@))),
    {
        match &self.buffered_file_name {
            None => None,
            Some(n) => Some(join_path(self.current_directory.as_str(), n.as_str())),
        }
    }

    /// Applies the outcome of a paste: success clears the clipboard and its
    /// name together; failure leaves both and records the message.
    pub fn write_buffered_file(&mut self, result: Result<(), String>)
        requires
            old(self).wf(),
        ensures
            final(self).wf(),
            write_post(*old(self), *final(self), result),
    {
        match result {
            Ok(_) => {
                self.file_buffer = None;
                self.buffered_file_name = None;
            },
            Err(e) => {
                self.error = Some(e);
            },
        }
    }

    /// Records the outcome of a rename or a create-directory request.
    pub fn finish_mutation(&mut self, result: Option<String>)
        requires
            old(self).wf(),
        ensures
            final(self).wf(),
            *final(self) == (App { error: result, ..*old(self) }),
    {
        self.error = result;
    }

    /// Records the outcome of a delete request; a successful delete also
    /// moves the cursor one row up, ahead of the next listing refresh.
    pub fn finish_delete(&mut self, result: Option<String>)
        requires
            old(self).wf(),
        ensures
            final(self).wf(),
            (result is None ==> *final(self) == (App {
                error: None::<String>,
                selection_index: sel_up(old(self).selection_index),
                ..*old(self)
            })),
            (result matches Some(e) ==> *final(self) == (App { error: Some(e), ..*old(self) })),
    {
        match result {
            None => {
                self.move_selection_up();
                self.error = None;
            },
            Some(e) => {
                self.error = Some(e);
            },
        }
    }
}

/// Copies a byte vector.
fn clone_bytes(b: &Vec<u8>) -> (r: Vec<u8>)
    ensures
        r@ == b@,
{
    let mut r: Vec<u8> = Vec::new();
    let mut i: usize = 0;
    while i < b.len()
        invariant
            i <= b@.len(),
            r@ == b@.subrange(0, i as int),
        decreases b@.len() - i,
    {
        r.push(b[i]);
        proof {
            assert(b@.subrange(0, i as int).push(b@[i as int]) =~= b@.subrange(0, i as int + 1));
        }
        i = i + 1;
    }
    proof {
        assert(b@.subrange(0, b@.len() as int) =~= b@);
    }
    r
}

/// What a directory change leaves behind: the new directory with its fresh
/// sorted listing, the cursor back at the top, and everything else kept.
pub open spec fn refresh_to(pre: App, post: App, dir: Seq<char>, entries: Seq<DirectoryItem>) -> bool {
    &&& post.current_directory@ == dir
    &&& items_sorted(post.directory_contents@)
    &&& post.directory_contents@.to_multiset() == entries.to_multiset()
    &&& post.selection_index == (if entries.len() == 0 {
        None::<usize>
    } else {
        Some(0usize)
    })
    &&& post.mode == pre.mode
    &&& post.command_buffer == pre.command_buffer
    &&& post.buffered_file_name == pre.buffered_file_name
    &&& post.file_buffer == pre.file_buffer
    &&& post.window_height == pre.window_height
}

/// What loading a file into the clipboard leaves behind, for each read
/// outcome.
pub open spec fn load_post(pre: App, post: App, rr: Option<Result<Vec<u8>, String>>) -> bool {
    &&& post.current_directory == pre.current_directory
    &&& post.mode == pre.mode
    &&& post.selection_index == pre.selection_index
    &&& post.directory_contents == pre.directory_contents
    &&& post.command_buffer == pre.command_buffer
    &&& post.window_height == pre.window_height
    &&& (match rr {
        None => {
            &&& post.file_buffer is None
            &&& post.buffered_file_name is None
            &&& post.error == pre.error
        },
        Some(Err(e)) => {
            &&& post.file_buffer is None
            &&& post.buffered_file_name is None
            &&& post.error == Some(e)
        },
        Some(Ok(bytes)) => {
            &&& post.file_buffer == Some(bytes)
            &&& (post.buffered_file_name matches Some(n) && n@ == basename(
                pre.selected_path_spec(),
            ))
            &&& post.error == pre.error
        },
    })
}

/// The cursor after the given number of row-up moves.
pub open spec fn sel_up_n(s: Option<usize>, n: nat) -> Option<usize>
    decreases n,
{
    if n == 0 {
        s
    } else {
        sel_up(sel_up_n(s, (n - 1) as nat))
    }
}

/// Law: every cursor move keeps the cursor inside the listing, and never
/// makes it appear or disappear.
pub proof fn lemma_selection_moves_stay_in_bounds(s: Option<usize>, len: int, rows: int)
    requires
        s matches Some(i) ==> 0 <= i < len,
        rows >= 0,
        len <= usize::MAX,
    ensures
        sel_down(s, len) matches Some(j) ==> 0 <= j < len,
        sel_up(s) matches Some(j) ==> 0 <= j < len,
        sel_left(s, rows) matches Some(j) ==> 0 <= j < len,
        sel_right(s, rows, len) matches Some(j) ==> 0 <= j < len,
        sel_down(s, len) is None <==> s is None,
        sel_up(s) is None <==> s is None,
        sel_left(s, rows) is None <==> s is None,
        sel_right(s, rows, len) is None <==> s is None,
{
}

/// Law: repeated row-up moves reach the top row and then stay there.
pub proof fn lemma_repeated_move_up(i: usize, n: nat)
    ensures
        sel_up_n(Some(i), n) == (if n < i {
            Some((i - n) as usize)
        } else {
            Some(0usize)
        }),
    decreases n,
{
    if n > 0 {
        lemma_repeated_move_up(i, (n - 1) as nat);
    }
}

/// Law: a column-right jump followed by a column-left jump returns to the
/// starting row whenever the right jump was not stopped at the end of the
/// listing (the left jump back is then never stopped either).
pub proof fn lemma_column_round_trip(i: usize, rows: int, len: int)
    requires
        rows >= 0,
        i + rows < len,
        len <= usize::MAX,
    ensures
        sel_left(sel_right(Some(i), rows, len), rows) == Some(i),
{
}

/// Law: a copy, a directory change, and a successful paste carry exactly
/// the loaded bytes under the original base name into the new directory,
/// and afterwards the clipboard and its name are cleared together.
pub proof fn lemma_copy_paste_round_trip(
    a0: App,
    a1: App,
    a2: App,
    a3: App,
    bytes: Vec<u8>,
    dir2: Seq<char>,
    entries2: Seq<DirectoryItem>,
)
    requires
        a0.selection_index is Some,
        load_post(a0, a1, Some(Ok(bytes))),
        refresh_to(a1, a2, dir2, entries2),
        write_post(a2, a3, Ok(())),
    ensures
        a2.buffered_file_name matches Some(n) && n@ == basename(a0.selected_path_spec()),
        a2.file_buffer == Some(bytes),
        a2.current_directory@ == dir2,
        a3.file_buffer is None,
        a3.buffered_file_name is None,
{
}

/// What a paste leaves behind, for each write outcome.
pub open spec fn write_post(pre: App, post: App, result: Result<(), String>) -> bool {
    &&& post.current_directory == pre.current_directory
    &&& post.mode == pre.mode
    &&& post.selection_index == pre.selection_index
    &&& post.directory_contents == pre.directory_contents
    &&& post.command_buffer == pre.command_buffer
    &&& post.window_height == pre.window_height
    &&& (match result {
        Ok(_) => {
            &&& post.file_buffer is None
            &&& post.buffered_file_name is None
            &&& post.error == pre.error
        },
        Err(e) => {
            &&& post.file_buffer == pre.file_buffer
            &&& post.buffered_file_name == pre.buffered_file_name
            &&& post.error == Some(e)
        },
    })
}

} // verus!
