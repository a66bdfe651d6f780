use speedylemon::stateful_list::join_lines;
use speedylemon::stateful_list::ScrollStyle;
use speedylemon::stateful_list::StatefulScrollingList;

fn names(n: usize) -> Vec<String> {
    (0..n).map(|i| format!("item {}", i)).collect()
}

#[test]
fn with_items_selects_nothing() {
    let list = StatefulScrollingList::with_items(names(3));
    assert_eq!(list.selected, None);
    assert_eq!(list.offset, 0);
    assert_eq!(list.viewport_length, 0);
    assert_eq!(list.items, names(3));
    assert!(matches!(list.scroll_style, ScrollStyle::Fixed));
    assert_eq!(list.selected(), None);
}

#[test]
fn builders_set_one_field() {
    let list = StatefulScrollingList::with_items(names(3))
        .with_scroll_style(ScrollStyle::Paging)
        .with_viewport_length(10);
    assert!(matches!(list.scroll_style, ScrollStyle::Paging));
    assert_eq!(list.viewport_length, 10);
    assert_eq!(list.items, names(3));
    assert_eq!(list.selected, None);
}

#[test]
fn select_beyond_the_list_changes_nothing() {
    let mut list = StatefulScrollingList::with_items(names(3)).with_viewport_length(2);
    list.select(1);
    list.select(3);
    assert_eq!(list.selected, Some(1));
    assert_eq!(list.selected(), Some(&String::from("item 1")));
}

#[test]
fn paging_jumps_by_pages() {
    let mut list = StatefulScrollingList::with_items(names(25))
        .with_scroll_style(ScrollStyle::Paging)
        .with_viewport_length(10);
    list.select(0);
    assert_eq!(list.offset, 0);
    list.select(9);
    assert_eq!(list.offset, 0);
    list.select(10);
    assert_eq!(list.offset, 10);
    list.select(24);
    assert_eq!(list.offset, 20);
    assert_eq!(list.viewport(), vec!["item 20", "item 21", "item 22", "item 23", "*item 24"]);
}

#[test]
fn scrolling_keeps_the_selection_in_the_last_row() {
    let mut list = StatefulScrollingList::with_items(names(8))
        .with_scroll_style(ScrollStyle::Scrolling)
        .with_viewport_length(3);
    list.select(1);
    assert_eq!(list.offset, 0);
    list.select(2);
    assert_eq!(list.offset, 0);
    list.select(3);
    assert_eq!(list.offset, 1);
    list.select(7);
    assert_eq!(list.offset, 5);
    assert_eq!(list.viewport(), vec!["item 5", "item 6", "*item 7"]);
}

#[test]
fn fixed_window_does_not_move() {
    let mut list = StatefulScrollingList::with_items(names(8)).with_viewport_length(3);
    list.select(6);
    assert_eq!(list.offset, 0);
    assert_eq!(list.viewport(), vec!["item 0", "item 1", "item 2"]);
}

#[test]
fn next_and_prev_walk_the_list() {
    let mut list = StatefulScrollingList::with_items(names(3)).with_viewport_length(3);
    list.next();
    assert_eq!(list.selected, Some(0));
    list.next();
    list.next();
    assert_eq!(list.selected, Some(2));
    list.next();
    assert_eq!(list.selected, Some(2));
    list.prev();
    assert_eq!(list.selected, Some(1));
    list.prev();
    list.prev();
    assert_eq!(list.selected, Some(0));
}

#[test]
fn prev_without_selection_selects_the_first() {
    let mut list = StatefulScrollingList::with_items(names(3)).with_viewport_length(3);
    list.prev();
    assert_eq!(list.selected, Some(0));
}

#[test]
fn next_on_an_empty_list_selects_nothing() {
    let mut list = StatefulScrollingList::with_items(names(0))
        .with_scroll_style(ScrollStyle::Paging);
    list.next();
    assert_eq!(list.selected, None);
    assert_eq!(list.viewport(), Vec::<String>::new());
}

#[test]
fn clear_empties_the_list() {
    let mut list = StatefulScrollingList::with_items(names(30))
        .with_scroll_style(ScrollStyle::Paging)
        .with_viewport_length(10);
    list.select(15);
    list.clear();
    assert_eq!(list.selected, None);
    assert!(list.items.is_empty());
    assert_eq!(list.offset, 10);
    assert_eq!(list.viewport_length, 10);
}

#[test]
fn viewport_marks_the_selection() {
    let mut list = StatefulScrollingList::with_items(names(4)).with_viewport_length(10);
    list.select(2);
    assert_eq!(list.viewport(), vec!["item 0", "item 1", "*item 2", "item 3"]);
    assert_eq!(list.viewport_string(), "item 0\nitem 1\n*item 2\nitem 3");
}

#[test]
fn viewport_of_an_empty_window() {
    let list = StatefulScrollingList::with_items(names(4));
    assert_eq!(list.viewport(), Vec::<String>::new());
    assert_eq!(list.viewport_string(), "");
}

#[test]
fn join_lines_puts_line_feeds_between() {
    assert_eq!(join_lines(&vec![]), "");
    assert_eq!(join_lines(&vec![String::from("one")]), "one");
    assert_eq!(join_lines(&vec![String::from("one"), String::new(), String::from("three")]), "one\n\nthree");
}
