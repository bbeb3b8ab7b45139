use filebrowser::file_ops::file_size_kb;
use filebrowser::file_ops::sort_items;
use filebrowser::file_ops::DirectoryItem;
use filebrowser::render::column_bounds;
use filebrowser::render::column_count;
use filebrowser::render::display_label;
use filebrowser::render::visible_rows;
use filebrowser::app::App;
use filebrowser::text::base_name;
use filebrowser::text::parent_directory;
use filebrowser::text::chars_to_string;
use filebrowser::text::str_to_chars;
use filebrowser::text::join_path;

fn file(path: &str, kb: u64) -> DirectoryItem {
    DirectoryItem::File((path.to_string(), kb))
}

fn dir(path: &str) -> DirectoryItem {
    DirectoryItem::Directory(path.to_string())
}

#[test]
fn files_sort_strictly_before_directories() {
    let mut items = vec![file("b.txt", 1), dir("a"), file("a.txt", 1)];
    sort_items(&mut items);
    assert_eq!(items, vec![file("a.txt", 1), file("b.txt", 1), dir("a")]);
}

#[test]
fn each_group_sorts_alphabetically_by_path() {
    let mut items = vec![dir("z"), dir("m"), file("q", 1), dir("a"), file("c", 2), file("b", 9)];
    sort_items(&mut items);
    assert_eq!(
        items,
        vec![file("b", 9), file("c", 2), file("q", 1), dir("a"), dir("m"), dir("z")]
    );
}

#[test]
fn files_with_equal_paths_sort_by_size() {
    let mut items = vec![file("a", 5), file("a", 1), file("a", 3)];
    sort_items(&mut items);
    assert_eq!(items, vec![file("a", 1), file("a", 3), file("a", 5)]);
}

#[test]
fn size_rounds_up_to_whole_kilobytes() {
    assert_eq!(file_size_kb(0), 0);
    assert_eq!(file_size_kb(1), 1);
    assert_eq!(file_size_kb(999), 1);
    assert_eq!(file_size_kb(1000), 1);
    assert_eq!(file_size_kb(1001), 2);
    assert_eq!(file_size_kb(123_456), 124);
}

#[test]
fn base_name_takes_the_component_after_the_last_separator() {
    assert_eq!(base_name("/a/b/c.txt"), "c.txt");
    assert_eq!(base_name("/c.txt"), "c.txt");
    assert_eq!(base_name("plain"), "plain");
    assert_eq!(base_name("/a/"), "");
}

#[test]
fn parent_directory_drops_the_last_component() {
    assert_eq!(parent_directory("/a/b"), "/a");
    assert_eq!(parent_directory("/a"), "/");
    assert_eq!(parent_directory("/very/deep/path"), "/very/deep");
}

#[test]
fn join_path_uses_a_single_separator() {
    assert_eq!(join_path("/a", "b.txt"), "/a/b.txt");
    assert_eq!(join_path("/", "b.txt"), "//b.txt");
}

#[test]
fn strings_round_trip_through_their_characters() {
    let cs = str_to_chars("pa th/x");
    assert_eq!(cs, "pa th/x".chars().collect::<Vec<char>>());
    assert_eq!(chars_to_string(&cs), "pa th/x");
}

#[test]
fn labels_carry_a_marker_and_the_base_name() {
    assert_eq!(display_label(&file("/a/x.txt", 3)), "\u{1F4C4} x.txt\n");
    assert_eq!(display_label(&dir("/a/sub")), "\u{1F4C1} sub\n");
}

#[test]
fn visible_rows_flag_exactly_the_selected_entry() {
    let mut app = App::new(10, vec![file("/b", 1), file("/a", 1)]);
    app.move_selection_down();
    let rows = visible_rows(&app);
    assert_eq!(rows.len(), 2);
    assert_eq!(rows[0].0, "\u{1F4C4} a\n");
    assert!(!rows[0].1);
    assert_eq!(rows[1].0, "\u{1F4C4} b\n");
    assert!(rows[1].1);
}

#[test]
fn column_geometry_covers_the_listing_exactly() {
    assert_eq!(column_count(0, 2), 0);
    assert_eq!(column_count(1, 2), 1);
    assert_eq!(column_count(4, 2), 2);
    assert_eq!(column_count(5, 2), 3);
    assert_eq!(column_bounds(5, 2, 0), (0, 2));
    assert_eq!(column_bounds(5, 2, 1), (2, 4));
    assert_eq!(column_bounds(5, 2, 2), (4, 5));
}
