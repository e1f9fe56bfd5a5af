//! The to-do variant's state record and its fragment composers.
//!
//! Every composer is a pure function of the record it is given: the
//! `ensures` of each `render` pins the output to a spec-level rendering
//! of the record's view, so the same state always yields byte-identical
//! markup, and each fragment is valid standalone HTML.

use vstd::prelude::*;

use crate::render::dec_digits;
use crate::render::u128_to_dec;

verus! {

/// One to-do entry: a unique id, a verbatim label, and a done flag.
#[derive(Clone, Debug)]
pub struct Todo {
    pub id: u128,
    pub name: String,
    pub done: bool,
}

/// The mathematical image of a [`Todo`].
pub ghost struct TodoView {
    pub id: u128,
    pub name: Seq<char>,
    pub done: bool,
}

impl View for Todo {
    type V = TodoView;

    open spec fn view(&self) -> TodoView {
        TodoView { id: self.id, name: self.name@, done: self.done }
    }
}

impl Todo {
    /// An owned copy whose view equals this one's.
    pub fn duplicate(&self) -> (t: Todo)
        ensures
            t@ == self@,
    {
        Todo { id: self.id, name: self.name.clone(), done: self.done }
    }
}

/// The items of `s` that are not done, in order.
pub open spec fn active_of(s: Seq<TodoView>) -> Seq<TodoView> {
    s.filter(|t: TodoView| !t.done)
}

/// The items of `s` that are done, in order.
pub open spec fn completed_of(s: Seq<TodoView>) -> Seq<TodoView> {
    s.filter(|t: TodoView| t.done)
}

/// How many items of `s` remain to be done.
pub open spec fn undone_count(s: Seq<TodoView>) -> nat {
    active_of(s).len()
}

/// No two items of `s` share an id.
pub open spec fn unique_ids(s: Seq<TodoView>) -> bool {
    forall|i: int, j: int| 0 <= i < j < s.len() ==> s[i].id != s[j].id
}

/// Whether some item of `s` carries `id`.
pub open spec fn contains_id(s: Seq<TodoView>, id: u128) -> bool {
    exists|i: int| 0 <= i < s.len() && s[i].id == id
}

/// The position of the item of `s` carrying `id`, when one exists.
pub open spec fn index_of_id(s: Seq<TodoView>, id: u128) -> int {
    choose|i: int| 0 <= i < s.len() && s[i].id == id
}

/// The "items left" fragment.
#[derive(Clone, Copy, Debug)]
pub struct ItemCount {
    pub items_left: i32,
}

/// The markup of the count fragment for `n` remaining items.
pub open spec fn spec_item_count(n: nat) -> Seq<char> {
    "<span id=\"item-count\">"@ + dec_digits(n) + " items left</span>"@
}

impl ItemCount {
    /// Composes the count fragment.
    pub fn render(&self) -> (r: String)
        requires
            self.items_left >= 0,
        ensures
            r@ == spec_item_count(self.items_left as nat),
    {
        let mut s = String::from_str("<span id=\"item-count\">");
        let digits = u128_to_dec(self.items_left as u128);
        s.append(digits.as_str());
        s.append(" items left</span>");
        s
    }
}

/// The markup of one list entry.
pub open spec fn spec_todo_item(t: TodoView) -> Seq<char> {
    "<li id=\"todo-"@ + dec_digits(t.id as nat) + "\" class=\""@ + (if t.done {
        "completed"@
    } else {
        "active"@
    }) + "\">"@ + t.name + "</li>"@
}

/// One rendered list entry.
#[derive(Clone, Debug)]
pub struct TodoItem {
    pub todo: Todo,
}

impl TodoItem {
    /// Composes the fragment for a single entry.
    pub fn render(&self) -> (r: String)
        ensures
            r@ == spec_todo_item(self.todo@),
    {
        let mut s = String::from_str("<li id=\"todo-");
        let digits = u128_to_dec(self.todo.id);
        s.append(digits.as_str());
        s.append("\" class=\"");
        if self.todo.done {
            s.append("completed");
        } else {
            s.append("active");
        }
        s.append("\">");
        s.append(self.todo.name.as_str());
        s.append("</li>");
        s
    }
}

/// The markup of the entries of `ts`, concatenated in order.
pub open spec fn spec_todo_items(ts: Seq<TodoView>) -> Seq<char>
    decreases ts.len(),
{
    if ts.len() == 0 {
        Seq::empty()
    } else {
        spec_todo_items(ts.drop_last()) + spec_todo_item(ts.last())
    }
}

/// The markup of the whole list fragment.
pub open spec fn spec_todo_list(ts: Seq<TodoView>) -> Seq<char> {
    "<ul id=\"todo-list\">"@ + spec_todo_items(ts) + "</ul>"@
}

/// The client's whole to-do list; an empty list is a valid, fully
/// initialized state.
#[derive(Clone, Debug)]
pub struct TodoList {
    pub todos: Vec<Todo>,
}

/// The views of the items of `s`, in order.
pub open spec fn views_of(s: Seq<Todo>) -> Seq<TodoView> {
    Seq::new(s.len(), |i: int| s[i]@)
}

impl View for TodoList {
    type V = Seq<TodoView>;

    open spec fn view(&self) -> Seq<TodoView> {
        views_of(self.todos@)
    }
}

impl TodoList {
    /// Well-formed: ids are unique for the record's lifetime, and the
    /// list is small enough for its length to fit the count fragment.
    pub open spec fn wf(self) -> bool {
        &&& unique_ids(self@)
        &&& self@.len() <= 0x7fff_ffff
    }

    /// Whether some item carries `id`.
    pub open spec fn spec_has(self, id: u128) -> bool {
        contains_id(self@, id)
    }

    /// The position of the item carrying `id`, when one exists.
    pub open spec fn spec_index_of(self, id: u128) -> int {
        index_of_id(self@, id)
    }

    /// An empty list.
    pub fn new() -> (l: TodoList)
        ensures
            l@ == Seq::<TodoView>::empty(),
            l.wf(),
    {
        let l = TodoList { todos: Vec::new() };
        proof {
            assert(l@ =~= Seq::<TodoView>::empty());
        }
        l
    }

    /// An owned copy whose view equals this one's.
    pub fn duplicate(&self) -> (l: TodoList)
        ensures
            l@ == self@,
    {
        let mut todos: Vec<Todo> = Vec::new();
        let mut i: usize = 0;
        while i < self.todos.len()
            invariant
                i <= self.todos.len(),
                todos@.len() == i,
                forall|j: int| 0 <= j < i ==> todos@[j]@ == self@[j],
            decreases self.todos.len() - i,
        {
            todos.push(self.todos[i].duplicate());
            i = i + 1;
        }
        let l = TodoList { todos };
        proof {
            assert(l@ =~= self@);
        }
        l
    }

    /// Composes the list fragment.
    pub fn render(&self) -> (r: String)
        ensures
            r@ == spec_todo_list(self@),
    {
        let mut s = String::from_str("<ul id=\"todo-list\">");
        let mut i: usize = 0;
        while i < self.todos.len()
            invariant
                i <= self.todos.len(),
                s@ == "<ul id=\"todo-list\">"@ + spec_todo_items(self@.take(i as int)),
            decreases self.todos.len() - i,
        {
            let item = TodoItem { todo: self.todos[i].duplicate() };
            let frag = item.render();
            s.append(frag.as_str());
            proof {
                assert(self@.take(i + 1 as int).drop_last() =~= self@.take(i as int));
                assert(self@.take(i + 1 as int).last() == self@[i as int]);
            }
            i = i + 1;
        }
        proof {
            assert(self@.take(self@.len() as int) =~= self@);
        }
        s.append("</ul>");
        s
    }
}

/// The markup of the edit form for one entry.
pub open spec fn spec_edit_item(t: TodoView) -> Seq<char> {
    "<form id=\"edit-"@ + dec_digits(t.id as nat) + "\" method=\"post\"><input name=\"todo\" value=\""@
        + t.name + "\"></form>"@
}

/// The edit form for one entry.
#[derive(Clone, Debug)]
pub struct EditItem {
    pub todo: Todo,
}

impl EditItem {
    /// Composes the edit-form fragment.
    pub fn render(&self) -> (r: String)
        ensures
            r@ == spec_edit_item(self.todo@),
    {
        let mut s = String::from_str("<form id=\"edit-");
        let digits = u128_to_dec(self.todo.id);
        s.append(digits.as_str());
        s.append("\" method=\"post\"><input name=\"todo\" value=\"");
        s.append(self.todo.name.as_str());
        s.append("\"></form>");
        s
    }
}

/// The markup of the full to-do page: the (possibly filtered) list,
/// then the count over the unfiltered list.
pub open spec fn spec_todo_page(shown: Seq<TodoView>, remaining: nat) -> Seq<char> {
    "<!doctype html><html><body><main>"@ + spec_todo_list(shown) + spec_item_count(remaining)
        + "</main></body></html>"@
}

/// The full to-do page: the displayed (already filtered) list, the
/// count fragment over the unfiltered list, and the filter that chose
/// the display.
#[derive(Clone, Debug)]
pub struct Index {
    pub item_count: ItemCount,
    pub todos: TodoList,
    pub filter: String,
}

impl Index {
    /// Composes the full page from the displayed list and the count.
    pub fn render(&self) -> (r: String)
        requires
            self.item_count.items_left >= 0,
        ensures
            r@ == spec_todo_page(self.todos@, self.item_count.items_left as nat),
    {
        let mut s = String::from_str("<!doctype html><html><body><main>");
        let list = self.todos.render();
        s.append(list.as_str());
        let count = self.item_count.render();
        s.append(count.as_str());
        s.append("</main></body></html>");
        s
    }
}

} // verus!
