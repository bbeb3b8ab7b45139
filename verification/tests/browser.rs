use filebrowser::app::App;
use filebrowser::app::Mode;
use filebrowser::commands::FsRequest;
use filebrowser::file_ops::DirectoryItem;

fn file(path: &str, kb: u64) -> DirectoryItem {
    DirectoryItem::File((path.to_string(), kb))
}

fn dir(path: &str) -> DirectoryItem {
    DirectoryItem::Directory(path.to_string())
}

fn type_command(app: &mut App, cmd: &str) {
    app.change_mode(Mode::Command);
    for c in cmd.chars() {
        app.add_to_command_buffer(c);
    }
}

#[test]
fn new_app_starts_at_root_with_sorted_listing() {
    let app = App::new(10, vec![dir("/d"), file("/f.txt", 2)]);
    assert_eq!(app.current_directory, "/");
    assert!(app.mode == Mode::Browse);
    assert_eq!(app.window_height, 5);
    assert_eq!(app.selection_index, Some(0));
    assert_eq!(
        app.directory_contents,
        vec![file("/f.txt", 2), dir("/d")]
    );
    assert!(app.error.is_none());
    assert_eq!(app.get_buffered_file(), (None, None));
}

#[test]
fn new_app_on_empty_root_has_no_selection() {
    let app = App::new(10, Vec::new());
    assert_eq!(app.selection_index, None);
    assert!(app.directory_contents.is_empty());
}

#[test]
fn selection_moves_stay_in_bounds() {
    let mut app = App::new(10, vec![file("/a", 1), file("/b", 1), file("/c", 1)]);
    app.move_selection_down();
    app.move_selection_down();
    assert_eq!(app.selection_index, Some(2));
    app.move_selection_down();
    assert_eq!(app.selection_index, Some(2));
    app.move_selection_up();
    app.move_selection_up();
    app.move_selection_up();
    assert_eq!(app.selection_index, Some(0));
    app.move_selection_up();
    assert_eq!(app.selection_index, Some(0));
}

#[test]
fn selection_moves_do_nothing_when_listing_is_empty() {
    let mut app = App::new(10, Vec::new());
    app.move_selection_down();
    app.move_selection_up();
    app.move_selection_left();
    app.move_selection_right();
    assert_eq!(app.selection_index, None);
}

#[test]
fn column_jump_right_then_left_returns_to_start() {
    let entries: Vec<DirectoryItem> = (0..12).map(|i| file(&format!("/f{:02}", i), 1)).collect();
    let mut app = App::new(7, entries);
    assert_eq!(app.window_height, 2);
    app.move_selection_down();
    assert_eq!(app.selection_index, Some(1));
    app.move_selection_right();
    assert_eq!(app.selection_index, Some(3));
    app.move_selection_left();
    assert_eq!(app.selection_index, Some(1));
}

#[test]
fn column_jumps_clamp_at_both_ends() {
    let entries: Vec<DirectoryItem> = (0..5).map(|i| file(&format!("/f{}", i), 1)).collect();
    let mut app = App::new(7, entries);
    app.move_selection_right();
    assert_eq!(app.selection_index, Some(2));
    app.move_selection_right();
    assert_eq!(app.selection_index, Some(4));
    app.move_selection_right();
    assert_eq!(app.selection_index, Some(4));
    app.move_selection_left();
    app.move_selection_left();
    assert_eq!(app.selection_index, Some(0));
    app.move_selection_left();
    assert_eq!(app.selection_index, Some(0));
}

#[test]
fn populate_files_revalidates_the_selection() {
    let mut app = App::new(10, vec![file("/a", 1), file("/b", 1), file("/c", 1)]);
    app.move_selection_down();
    app.move_selection_down();
    assert_eq!(app.selection_index, Some(2));
    app.populate_files(vec![file("/a", 1), file("/b", 1)]);
    assert_eq!(app.selection_index, Some(1));
    app.populate_files(Vec::new());
    assert_eq!(app.selection_index, None);
    app.populate_files(vec![file("/a", 1)]);
    assert_eq!(app.selection_index, Some(0));
}

#[test]
fn deleting_the_last_entry_moves_selection_to_the_new_last() {
    let mut app = App::new(10, vec![file("/a", 1), file("/b", 1), file("/c", 1)]);
    app.move_selection_down();
    app.move_selection_down();
    type_command(&mut app, ":DEL");
    let request = app.execute_command();
    match request {
        Some(FsRequest::Delete { path, is_directory }) => {
            assert_eq!(path, "/c");
            assert!(!is_directory);
        }
        other => panic!("expected a delete request, got {:?}", other),
    }
    app.finish_delete(None);
    assert_eq!(app.selection_index, Some(1));
    app.populate_files(vec![file("/a", 1), file("/b", 1)]);
    assert_eq!(app.selection_index, Some(1));
}

#[test]
fn deleting_the_only_entry_leaves_no_selection() {
    let mut app = App::new(10, vec![file("/a", 1)]);
    type_command(&mut app, ":DEL");
    let request = app.execute_command();
    assert!(matches!(request, Some(FsRequest::Delete { .. })));
    app.finish_delete(None);
    assert_eq!(app.selection_index, Some(0));
    app.populate_files(Vec::new());
    assert_eq!(app.selection_index, None);
}

#[test]
fn failed_delete_keeps_the_selection_and_records_the_error() {
    let mut app = App::new(10, vec![file("/a", 1), file("/b", 1)]);
    app.move_selection_down();
    app.finish_delete(Some("permission denied".to_string()));
    assert_eq!(app.selection_index, Some(1));
    assert_eq!(app.error.as_deref(), Some("permission denied"));
}

#[test]
fn copy_navigate_paste_round_trip() {
    let mut app = App::new(10, vec![dir("/d"), file("/f.txt", 1)]);
    assert_eq!(app.selection_index, Some(0));
    app.load_selected_into_file_buffer(Some(Ok(vec![10, 20, 30])));
    assert_eq!(
        app.get_buffered_file(),
        (Some(vec![10, 20, 30]), Some("f.txt".to_string()))
    );
    app.move_selection_down();
    assert_eq!(app.open_folder_target(), Some("/d".to_string()));
    app.open_folder(Ok(Vec::new()));
    assert_eq!(app.current_directory, "/d");
    assert_eq!(app.selection_index, None);
    assert_eq!(
        app.get_buffered_file(),
        (Some(vec![10, 20, 30]), Some("f.txt".to_string()))
    );
    assert_eq!(app.write_buffer_destination(), Some("/d/f.txt".to_string()));
    app.write_buffered_file(Ok(()));
    assert_eq!(app.get_buffered_file(), (None, None));
    assert!(app.error.is_none());
}

#[test]
fn failed_paste_keeps_the_clipboard() {
    let mut app = App::new(10, vec![file("/f.txt", 1)]);
    app.load_selected_into_file_buffer(Some(Ok(vec![7])));
    app.write_buffered_file(Err("disk full".to_string()));
    assert_eq!(
        app.get_buffered_file(),
        (Some(vec![7]), Some("f.txt".to_string()))
    );
    assert_eq!(app.error.as_deref(), Some("disk full"));
}

#[test]
fn failed_copy_clears_the_clipboard_and_records_the_error() {
    let mut app = App::new(10, vec![file("/f.txt", 1)]);
    app.load_selected_into_file_buffer(Some(Err("is a directory".to_string())));
    assert_eq!(app.get_buffered_file(), (None, None));
    assert_eq!(app.error.as_deref(), Some("is a directory"));
    assert_eq!(app.write_buffer_destination(), None);
}

#[test]
fn opening_a_file_is_not_a_folder_descent() {
    let app = App::new(10, vec![file("/f.txt", 1)]);
    assert_eq!(app.open_folder_target(), None);
}

#[test]
fn failed_descent_rolls_back_and_records_the_error() {
    let mut app = App::new(10, vec![dir("/d")]);
    app.open_folder(Err("permission denied".to_string()));
    assert_eq!(app.current_directory, "/");
    assert_eq!(app.selection_index, Some(0));
    assert_eq!(app.directory_contents, vec![dir("/d")]);
    assert_eq!(app.error.as_deref(), Some("permission denied"));
}

#[test]
fn ascending_from_a_first_level_directory_returns_to_the_root() {
    let mut app = App::new(10, vec![dir("/a")]);
    app.open_folder(Ok(vec![file("/a/x", 1), file("/a/y", 1)]));
    assert_eq!(app.current_directory, "/a");
    app.move_selection_down();
    assert_eq!(app.move_up_directory_target(), Some("/".to_string()));
    let r = app.move_up_directory(Ok(vec![dir("/a")]));
    assert!(r.is_ok());
    assert_eq!(app.current_directory, "/");
    assert_eq!(app.selection_index, Some(0));
    assert_eq!(app.directory_contents, vec![dir("/a")]);
}

#[test]
fn the_root_is_a_fixed_point_of_ascending() {
    let app = App::new(10, Vec::new());
    assert_eq!(app.move_up_directory_target(), None);
}

#[test]
fn a_failed_ascent_is_handed_back_and_changes_nothing() {
    let mut app = App::new(10, vec![dir("/a")]);
    app.open_folder(Ok(vec![file("/a/x", 1)]));
    let r = app.move_up_directory(Err("gone".to_string()));
    assert_eq!(r, Err("gone".to_string()));
    assert_eq!(app.current_directory, "/a");
    assert_eq!(app.directory_contents, vec![file("/a/x", 1)]);
}

#[test]
fn command_mode_round_trip_keeps_the_selection() {
    let mut app = App::new(10, vec![file("/a", 1), file("/b", 1)]);
    app.move_selection_down();
    app.change_mode(Mode::Command);
    assert!(app.mode == Mode::Command);
    assert_eq!(app.selection_index, Some(1));
    app.cancel_command();
    assert!(app.mode == Mode::Browse);
    assert_eq!(app.command_buffer, Vec::new());
    assert_eq!(app.selection_index, Some(1));
}

#[test]
fn backspace_never_shortens_a_single_character_buffer() {
    let mut app = App::new(10, Vec::new());
    app.add_to_command_buffer(':');
    app.add_to_command_buffer('x');
    app.command_backspace();
    assert_eq!(app.command_buffer, vec![':']);
    app.command_backspace();
    assert_eq!(app.command_buffer, vec![':']);
}

#[test]
fn the_command_buffer_reads_back_as_a_string() {
    let mut app = App::new(10, Vec::new());
    app.add_to_command_buffer(':');
    app.add_to_command_buffer('a');
    app.add_to_command_buffer('b');
    assert_eq!(app.get_command_buffer_as_string(), ":ab");
}

#[test]
fn executing_a_command_clears_the_buffer_and_returns_to_browse() {
    let mut app = App::new(10, Vec::new());
    type_command(&mut app, ":bogus");
    let r = app.execute_command();
    assert!(r.is_none());
    assert!(app.mode == Mode::Browse);
    assert!(app.command_buffer.is_empty());
    assert_eq!(app.error.as_deref(), Some("Not a command"));
}
