use session_fragments::AppError;
use session_fragments::templates::EditItem;
use session_fragments::templates::ItemCount;
use session_fragments::templates::Todo;
use session_fragments::templates::TodoItem;
use session_fragments::templates::TodoList;
use session_fragments::todo::Filter;
use session_fragments::todo::TodoApp;
use session_fragments::todo::get_items_left;
use session_fragments::todo::parse_filter;

const CLIENT: u128 = 11;

fn list_of(items: &[(u128, &str, bool)]) -> TodoList {
    let mut l = TodoList::new();
    for (id, name, done) in items {
        assert!(l.add_item(*id, (*name).to_string()));
        if *done {
            l.toggle_item(*id).unwrap();
        }
    }
    l
}

#[test]
fn item_count_fragment_exact() {
    let c = ItemCount { items_left: 0 };
    assert_eq!(c.render(), "<span id=\"item-count\">0 items left</span>");
    let c = ItemCount { items_left: 42 };
    assert_eq!(c.render(), "<span id=\"item-count\">42 items left</span>");
}

#[test]
fn todo_item_fragment_exact() {
    let item = TodoItem { todo: Todo { id: 7, name: "milk".to_string(), done: false } };
    assert_eq!(item.render(), "<li id=\"todo-7\" class=\"active\">milk</li>");
    let item = TodoItem { todo: Todo { id: 8, name: "tea".to_string(), done: true } };
    assert_eq!(item.render(), "<li id=\"todo-8\" class=\"completed\">tea</li>");
}

#[test]
fn edit_item_fragment_exact() {
    let form = EditItem { todo: Todo { id: 5, name: "bread".to_string(), done: false } };
    assert_eq!(
        form.render(),
        "<form id=\"edit-5\" method=\"post\"><input name=\"todo\" value=\"bread\"></form>"
    );
}

#[test]
fn get_items_left_counts_undone() {
    let l = list_of(&[(1, "a", false), (2, "b", true), (3, "c", false)]);
    assert_eq!(get_items_left(&l.todos), 2);
    let empty = TodoList::new();
    assert_eq!(get_items_left(&empty.todos), 0);
}

#[test]
fn parse_filter_falls_back_to_all() {
    assert_eq!(parse_filter(&"active".to_string()), Filter::Active);
    assert_eq!(parse_filter(&"completed".to_string()), Filter::Completed);
    assert_eq!(parse_filter(&"all".to_string()), Filter::All);
    assert_eq!(parse_filter(&"bogus".to_string()), Filter::All);
    assert_eq!(parse_filter(&"".to_string()), Filter::All);
}

#[test]
fn add_item_rejects_duplicate_id() {
    let mut l = TodoList::new();
    assert!(l.add_item(1, "first".to_string()));
    assert!(!l.add_item(1, "again".to_string()));
    assert_eq!(l.todos.len(), 1);
    assert_eq!(l.todos[0].name, "first");
}

#[test]
fn filter_active_keeps_undone_in_order() {
    let l = list_of(&[(1, "one", false), (2, "two", true), (3, "three", false)]);
    let active = l.filtered(Filter::Active);
    assert_eq!(active.todos.len(), 2);
    assert_eq!(active.todos[0].id, 1);
    assert_eq!(active.todos[1].id, 3);
    let all = l.filtered(Filter::All);
    assert_eq!(all.todos.len(), 3);
    assert_eq!(all.todos[0].id, 1);
    assert_eq!(all.todos[1].id, 2);
    assert_eq!(all.todos[2].id, 3);
    let completed = l.filtered(Filter::Completed);
    assert_eq!(completed.todos.len(), 1);
    assert_eq!(completed.todos[0].id, 2);
}

#[test]
fn filtered_pages_count_over_unfiltered_list() {
    let mut app = TodoApp::new();
    let (id1, _) = app.add_todo(CLIENT, "one".to_string()).unwrap();
    let (id2, _) = app.add_todo(CLIENT, "two".to_string()).unwrap();
    let (id3, _) = app.add_todo(CLIENT, "three".to_string()).unwrap();
    app.update_item_html(CLIENT, id2).unwrap();

    let active_page = app.index(CLIENT, &"active".to_string());
    let expected_active = format!(
        "<!doctype html><html><body><main><ul id=\"todo-list\"><li id=\"todo-{}\" class=\"active\">one</li><li id=\"todo-{}\" class=\"active\">three</li></ul><span id=\"item-count\">2 items left</span></main></body></html>",
        id1, id3
    );
    assert_eq!(active_page, expected_active);

    let all_page = app.index(CLIENT, &"all".to_string());
    let expected_all = format!(
        "<!doctype html><html><body><main><ul id=\"todo-list\"><li id=\"todo-{}\" class=\"active\">one</li><li id=\"todo-{}\" class=\"completed\">two</li><li id=\"todo-{}\" class=\"active\">three</li></ul><span id=\"item-count\">2 items left</span></main></body></html>",
        id1, id2, id3
    );
    assert_eq!(all_page, expected_all);

    let fallback_page = app.index(CLIENT, &"bogus".to_string());
    assert_eq!(fallback_page, expected_all);
}

#[test]
fn completed_page_counts_over_unfiltered_list() {
    let mut app = TodoApp::new();
    let (_, _) = app.add_todo(CLIENT, "one".to_string()).unwrap();
    let (id2, _) = app.add_todo(CLIENT, "two".to_string()).unwrap();
    app.update_item_html(CLIENT, id2).unwrap();
    let page = app.index(CLIENT, &"completed".to_string());
    let expected = format!(
        "<!doctype html><html><body><main><ul id=\"todo-list\"><li id=\"todo-{}\" class=\"completed\">two</li></ul><span id=\"item-count\">1 items left</span></main></body></html>",
        id2
    );
    assert_eq!(page, expected);
}

#[test]
fn minted_item_ids_are_distinct() {
    let mut app = TodoApp::new();
    let (a, _) = app.add_todo(CLIENT, "a".to_string()).unwrap();
    let (b, _) = app.add_todo(CLIENT, "b".to_string()).unwrap();
    let (c, _) = app.add_todo(CLIENT, "c".to_string()).unwrap();
    assert_ne!(a, b);
    assert_ne!(b, c);
    assert_ne!(a, c);
}

#[test]
fn count_agrees_with_list_after_every_mutation() {
    let mut app = TodoApp::new();
    let (_, html) = app.add_todo(CLIENT, "one".to_string()).unwrap();
    assert!(html.ends_with("<span id=\"item-count\">1 items left</span>"));
    let (id2, html) = app.add_todo(CLIENT, "two".to_string()).unwrap();
    assert!(html.ends_with("<span id=\"item-count\">2 items left</span>"));
    let html = app.update_item_html(CLIENT, id2).unwrap();
    assert!(html.ends_with("<span id=\"item-count\">1 items left</span>"));
    let html = app.delete_item(CLIENT, id2);
    assert_eq!(html, "<span id=\"item-count\">1 items left</span>");
    let (id3, _) = app.add_todo(CLIENT, "three".to_string()).unwrap();
    app.update_item_html(CLIENT, id3).unwrap();
    let html = app.clear_completed(CLIENT);
    assert!(html.ends_with("<span id=\"item-count\">1 items left</span>"));
}

#[test]
fn toggle_returns_item_and_post_mutation_count() {
    let mut app = TodoApp::new();
    let (id, _) = app.add_todo(CLIENT, "one".to_string()).unwrap();
    let html = app.update_item_html(CLIENT, id).unwrap();
    let expected = format!(
        "<li id=\"todo-{}\" class=\"completed\">one</li><span id=\"item-count\">0 items left</span>",
        id
    );
    assert_eq!(html, expected);
    let html = app.update_item_html(CLIENT, id).unwrap();
    let expected = format!(
        "<li id=\"todo-{}\" class=\"active\">one</li><span id=\"item-count\">1 items left</span>",
        id
    );
    assert_eq!(html, expected);
}

#[test]
fn rename_preserves_done_and_position() {
    let mut app = TodoApp::new();
    let (id1, _) = app.add_todo(CLIENT, "one".to_string()).unwrap();
    let (id2, _) = app.add_todo(CLIENT, "two".to_string()).unwrap();
    app.update_item_html(CLIENT, id1).unwrap();
    let html = app.update_item(CLIENT, id1, "uno".to_string()).unwrap();
    let expected = format!(
        "<li id=\"todo-{}\" class=\"completed\">uno</li><span id=\"item-count\">1 items left</span>",
        id1
    );
    assert_eq!(html, expected);
    let page = app.index(CLIENT, &"all".to_string());
    let expected_page = format!(
        "<!doctype html><html><body><main><ul id=\"todo-list\"><li id=\"todo-{}\" class=\"completed\">uno</li><li id=\"todo-{}\" class=\"active\">two</li></ul><span id=\"item-count\">1 items left</span></main></body></html>",
        id1, id2
    );
    assert_eq!(page, expected_page);
}

#[test]
fn delete_unknown_id_is_noop() {
    let mut app = TodoApp::new();
    let (id1, _) = app.add_todo(CLIENT, "one".to_string()).unwrap();
    let (_, _) = app.add_todo(CLIENT, "two".to_string()).unwrap();
    let before = app.index(CLIENT, &"all".to_string());
    let bogus = id1.wrapping_add(424242);
    let html = app.delete_item(CLIENT, bogus);
    assert_eq!(html, "<span id=\"item-count\">2 items left</span>");
    let after = app.index(CLIENT, &"all".to_string());
    assert_eq!(before, after);
}

#[test]
fn toggle_and_rename_unknown_id_are_not_found() {
    let mut app = TodoApp::new();
    let (id, _) = app.add_todo(CLIENT, "one".to_string()).unwrap();
    let before = app.index(CLIENT, &"all".to_string());
    let bogus = id.wrapping_add(99);
    assert_eq!(app.update_item_html(CLIENT, bogus), Err(AppError::NotFound));
    assert_eq!(
        app.update_item(CLIENT, bogus, "new".to_string()),
        Err(AppError::NotFound)
    );
    assert_eq!(app.edit_item(CLIENT, bogus), Err(AppError::NotFound));
    let after = app.index(CLIENT, &"all".to_string());
    assert_eq!(before, after);
}

#[test]
fn edit_item_renders_edit_form() {
    let mut app = TodoApp::new();
    let (id, _) = app.add_todo(CLIENT, "bread".to_string()).unwrap();
    let html = app.edit_item(CLIENT, id).unwrap();
    let expected = format!(
        "<form id=\"edit-{}\" method=\"post\"><input name=\"todo\" value=\"bread\"></form>",
        id
    );
    assert_eq!(html, expected);
}

#[test]
fn clients_do_not_share_lists() {
    let mut app = TodoApp::new();
    app.add_todo(1, "mine".to_string()).unwrap();
    let other = app.index(2, &"all".to_string());
    assert_eq!(
        other,
        "<!doctype html><html><body><main><ul id=\"todo-list\"></ul><span id=\"item-count\">0 items left</span></main></body></html>"
    );
}

#[test]
fn clear_completed_returns_list_and_count() {
    let mut app = TodoApp::new();
    let (id1, _) = app.add_todo(CLIENT, "keep".to_string()).unwrap();
    let (id2, _) = app.add_todo(CLIENT, "drop".to_string()).unwrap();
    app.update_item_html(CLIENT, id2).unwrap();
    let html = app.clear_completed(CLIENT);
    let expected = format!(
        "<ul id=\"todo-list\"><li id=\"todo-{}\" class=\"active\">keep</li></ul><span id=\"item-count\">1 items left</span>",
        id1
    );
    assert_eq!(html, expected);
}
