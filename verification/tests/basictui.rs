use speedylemon::basictui::StatefulList;
use speedylemon::basictui::Window;
use speedylemon::basictui::WindowBuilder;

#[test]
fn plain_list_starts_without_selection() {
    let list = StatefulList::with_items(vec![1, 2, 3]);
    assert_eq!(list.selected, None);
    assert_eq!(list.items, vec![1, 2, 3]);
    assert_eq!(list.selected(), None);
}

#[test]
fn plain_list_select_within_the_list_only() {
    let mut list = StatefulList::with_items(vec!['a', 'b']);
    list.select(1);
    assert_eq!(list.selected(), Some(&'b'));
    list.select(2);
    assert_eq!(list.selected, Some(1));
}

#[test]
fn plain_list_next_stops_at_the_end() {
    let mut list = StatefulList::with_items(vec!['a', 'b']);
    list.next();
    assert_eq!(list.selected, Some(0));
    list.next();
    assert_eq!(list.selected, Some(1));
    list.next();
    assert_eq!(list.selected, Some(1));
}

#[test]
fn plain_list_prev_stops_at_the_start() {
    let mut list = StatefulList::with_items(vec!['a', 'b']);
    list.prev();
    assert_eq!(list.selected, Some(0));
    list.select(1);
    list.prev();
    assert_eq!(list.selected, Some(0));
    list.prev();
    assert_eq!(list.selected, Some(0));
}

#[test]
fn plain_list_next_on_an_empty_list_selects_index_zero() {
    let mut list = StatefulList::with_items(Vec::<u8>::new());
    list.next();
    assert_eq!(list.selected, Some(0));
}

#[test]
fn plain_list_clear() {
    let mut list = StatefulList::with_items(vec![1, 2]);
    list.select(1);
    list.clear();
    assert_eq!(list.selected, None);
    assert!(list.items.is_empty());
}

#[test]
fn window_builder_sets_sizes_and_builds_text() {
    let mut builder = WindowBuilder {
        data: Window { width: 0, height: 0, lines: vec![String::from("one"), String::from("two")] },
    };
    assert_eq!(builder.with_width(80).data.width, 80);
    assert_eq!(builder.with_height(24).data.height, 24);
    assert_eq!(builder.data.width, 80);
    assert_eq!(builder.build(), "one\ntwo");
}
