//! Transitions and handlers of the to-do variant.
//!
//! Each transition read-modifies-writes one client's record; each
//! handler returns exactly the fragments the mutation implicates, and
//! every remaining-count it returns is computed over the unfiltered
//! post-mutation list.

use vstd::prelude::*;

use crate::templates::ItemCount;
use crate::templates::Todo;
use crate::templates::TodoItem;
use crate::templates::TodoList;
use crate::templates::TodoView;
use crate::templates::active_of;
use crate::templates::completed_of;
use crate::templates::undone_count;
use crate::templates::unique_ids;
use crate::templates::contains_id;
use crate::templates::index_of_id;

verus! {

/// The display filter of the list page; an unrecognized request value
/// falls back to `All`.
#[derive(Clone, Copy, Debug, PartialEq, Eq, Structural)]
pub enum Filter {
    All,
    Active,
    Completed,
}

/// Which filter a request's `filter` value selects.
pub open spec fn spec_parse_filter(s: Seq<char>) -> Filter {
    if s == "active"@ {
        Filter::Active
    } else if s == "completed"@ {
        Filter::Completed
    } else {
        Filter::All
    }
}

/// Parses the `filter` query value; anything but `active` or
/// `completed` selects `All`.
pub fn parse_filter(s: &String) -> (f: Filter)
    ensures
        f == spec_parse_filter(s@),
{
    let active = String::from_str("active");
    let completed = String::from_str("completed");
    if s.eq(&active) {
        Filter::Active
    } else if s.eq(&completed) {
        Filter::Completed
    } else {
        Filter::All
    }
}

/// The items of `s` that filter `f` lets through, in original order.
pub open spec fn spec_shown(s: Seq<TodoView>, f: Filter) -> Seq<TodoView> {
    match f {
        Filter::All => s,
        Filter::Active => active_of(s),
        Filter::Completed => completed_of(s),
    }
}

/// How one more item changes the filtered prefixes of `s`.
pub proof fn lemma_take_step(s: Seq<TodoView>, i: int)
    requires
        0 <= i < s.len(),
    ensures
        active_of(s.take(i + 1)) == (if s[i].done {
            active_of(s.take(i))
        } else {
            active_of(s.take(i)).push(s[i])
        }),
        completed_of(s.take(i + 1)) == (if s[i].done {
            completed_of(s.take(i)).push(s[i])
        } else {
            completed_of(s.take(i))
        }),
{
    reveal(Seq::filter);
    assert(s.take(i + 1).drop_last() =~= s.take(i));
    assert(s.take(i + 1).last() == s[i]);
}

/// The positions of `s` holding an item that is not done.
pub open spec fn undone_set(s: Seq<TodoView>) -> Set<int> {
    Set::new(|i: int| 0 <= i < s.len() && !s[i].done)
}

/// The remaining-count every mutating handler renders is
/// `undone_count` of the post-mutation list; this law pins that number
/// to the cardinality of the set of positions whose item is not done,
/// so after every mutation the count agrees with the list.
pub proof fn lemma_undone_count_is_card(s: Seq<TodoView>)
    ensures
        undone_set(s).finite(),
        undone_count(s) == undone_set(s).len(),
    decreases s.len(),
{
    broadcast use vstd::set::axiom_set_empty_len;

    reveal(Seq::filter);
    if s.len() == 0 {
        assert(undone_set(s) =~= Set::<int>::empty());
    } else {
        let d = s.drop_last();
        lemma_undone_count_is_card(d);
        vstd::set::axiom_set_insert_len(undone_set(d), s.len() - 1);
        if !s.last().done {
            assert(undone_set(s) =~= undone_set(d).insert(s.len() - 1));
            assert(!undone_set(d).contains(s.len() - 1));
            assert(active_of(s) == active_of(d).push(s.last()));
        } else {
            assert(undone_set(s) =~= undone_set(d));
            assert(active_of(s) == active_of(d));
        }
    }
}

/// A filtered list is no longer than the list itself.
pub proof fn lemma_undone_le_len(s: Seq<TodoView>)
    ensures
        undone_count(s) <= s.len(),
    decreases s.len(),
{
    reveal(Seq::filter);
    if s.len() > 0 {
        lemma_undone_le_len(s.drop_last());
    }
}

/// Filtering keeps ids unique: every kept item is an item of the
/// original list, and no two kept items share an id.
pub proof fn lemma_active_keeps_unique(s: Seq<TodoView>)
    requires
        forall|i: int, j: int| 0 <= i < j < s.len() ==> s[i].id != s[j].id,
    ensures
        forall|i: int, j: int|
            0 <= i < j < active_of(s).len() ==> active_of(s)[i].id != active_of(s)[j].id,
        forall|i: int| 0 <= i < active_of(s).len() ==> s.contains(active_of(s)[i]),
    decreases s.len(),
{
    reveal(Seq::filter);
    if s.len() > 0 {
        let d = s.drop_last();
        lemma_active_keeps_unique(d);
        assert forall|i: int| 0 <= i < active_of(s).len() implies s.contains(active_of(s)[i]) by {
            if i < active_of(d).len() {
                let k = choose|k: int| 0 <= k < d.len() && d[k] == active_of(d)[i];
                assert(s[k] == active_of(s)[i]);
            } else {
                assert(s[s.len() - 1] == active_of(s)[i]);
            }
        }
        assert forall|i: int, j: int|
            0 <= i < j < active_of(s).len() implies active_of(s)[i].id != active_of(s)[j].id by {
            if j == active_of(s).len() - 1 && active_of(s).len() > active_of(d).len() {
                let k = choose|k: int| 0 <= k < d.len() && d[k] == active_of(d)[i];
                assert(s[k].id != s[s.len() - 1].id);
            }
        }
    }
}

impl TodoList {
    /// Ties a found position to the spec-level index: ids are unique,
    /// so there is only one.
    pub proof fn lemma_found(self, id: u128, i: int)
        requires
            self.wf(),
            0 <= i < self@.len(),
            self@[i].id == id,
        ensures
            self.spec_has(id),
            self.spec_index_of(id) == i,
    {
        assert(self.spec_has(id));
        let j = self.spec_index_of(id);
        assert(0 <= j < self@.len() && self@[j].id == id);
        if i < j {
            assert(self@[i].id != self@[j].id);
        } else if j < i {
            assert(self@[j].id != self@[i].id);
        }
    }

    /// The position of the item carrying `id`, if any.
    pub fn find_index(&self, id: u128) -> (r: Option<usize>)
        requires
            self.wf(),
        ensures
            match r {
                Some(i) => self.spec_has(id) && self.spec_index_of(id) == i
                    && i < self@.len(),
                None => !self.spec_has(id),
            },
    {
        let n = self.todos.len();
        let mut i: usize = 0;
        while i < n
            invariant
                n == self@.len(),
                i <= n,
                self.wf(),
                forall|j: int| 0 <= j < i ==> self@[j].id != id,
            decreases n - i,
        {
            if self.todos[i].id == id {
                proof {
                    self.lemma_found(id, i as int);
                }
                return Some(i);
            }
            i = i + 1;
        }
        None
    }

    /// Appends a fresh item, not yet done. The append happens exactly
    /// when `id` is not taken and the list has room; otherwise the list
    /// is unchanged.
    pub fn add_item(&mut self, id: u128, name: String) -> (added: bool)
        requires
            old(self).wf(),
        ensures
            final(self).wf(),
            added == (!old(self).spec_has(id) && old(self)@.len() < 0x7fff_ffff),
            added ==> final(self)@ == old(self)@.push(
                (TodoView { id: id, name: name@, done: false }),
            ),
            !added ==> final(self)@ == old(self)@,
    {
        match self.find_index(id) {
            Some(_) => false,
            None => {
                if self.todos.len() >= 0x7fff_ffff {
                    return false;
                }
                let ghost n = name@;
                self.todos.push(Todo { id, name, done: false });
                proof {
                    assert(self@ =~= old(self)@.push(
                        (TodoView { id: id, name: n, done: false }),
                    ));
                }
                true
            },
        }
    }

    /// Flips the done flag of the item carrying `id`; an unknown id is
    /// a not-found condition and leaves the list unchanged.
    pub fn toggle_item(&mut self, id: u128) -> (r: Result<Todo, crate::AppError>)
        requires
            old(self).wf(),
        ensures
            final(self).wf(),
            !old(self).spec_has(id) ==> r == Err::<Todo, crate::AppError>(crate::AppError::NotFound)
                && final(self)@ == old(self)@,
            old(self).spec_has(id) ==> final(self)@ == old(self)@.update(
                old(self).spec_index_of(id),
                (TodoView {
                    id: id,
                    name: old(self)@[old(self).spec_index_of(id)].name,
                    done: !old(self)@[old(self).spec_index_of(id)].done,
                }),
            ) && (r matches Ok(t) && t@ == final(self)@[old(self).spec_index_of(id)]),
    {
        match self.find_index(id) {
            None => Err(crate::AppError::NotFound),
            Some(i) => {
                let mut t = self.todos[i].duplicate();
                t.done = !t.done;
                let out = t.duplicate();
                self.todos[i] = t;
                proof {
                    assert(self@ =~= old(self)@.update(i as int, out@));
                }
                Ok(out)
            },
        }
    }

    /// Replaces the label of the item carrying `id` in place, keeping
    /// its done flag and position; an unknown id is a not-found
    /// condition and leaves the list unchanged.
    pub fn rename_item(&mut self, id: u128, name: String) -> (r: Result<Todo, crate::AppError>)
        requires
            old(self).wf(),
        ensures
            final(self).wf(),
            !old(self).spec_has(id) ==> r == Err::<Todo, crate::AppError>(crate::AppError::NotFound)
                && final(self)@ == old(self)@,
            old(self).spec_has(id) ==> final(self)@ == old(self)@.update(
                old(self).spec_index_of(id),
                (TodoView {
                    id: id,
                    name: name@,
                    done: old(self)@[old(self).spec_index_of(id)].done,
                }),
            ) && (r matches Ok(t) && t@ == final(self)@[old(self).spec_index_of(id)]),
    {
        match self.find_index(id) {
            None => Err(crate::AppError::NotFound),
            Some(i) => {
                let mut t = self.todos[i].duplicate();
                t.name = name;
                let out = t.duplicate();
                self.todos[i] = t;
                proof {
                    assert(self@ =~= old(self)@.update(i as int, out@));
                }
                Ok(out)
            },
        }
    }

    /// Removes the item carrying `id`; deleting an id that is already
    /// gone is a no-op, not an error.
    pub fn remove_item(&mut self, id: u128)
        requires
            old(self).wf(),
        ensures
            final(self).wf(),
            !old(self).spec_has(id) ==> final(self)@ == old(self)@,
            old(self).spec_has(id) ==> final(self)@ == old(self)@.remove(
                old(self).spec_index_of(id),
            ),
    {
        match self.find_index(id) {
            None => (),
            Some(i) => {
                self.todos.remove(i);
                proof {
                    assert(self@ =~= old(self)@.remove(i as int));
                }
            },
        }
    }

    /// Removes every item that is done, keeping the rest in order.
    pub fn clear_done(&mut self)
        requires
            old(self).wf(),
        ensures
            final(self).wf(),
            final(self)@ == active_of(old(self)@),
    {
        let n = self.todos.len();
        let mut kept: Vec<Todo> = Vec::new();
        let mut i: usize = 0;
        proof {
            assert(crate::templates::views_of(kept@) =~= Seq::<TodoView>::empty());
            assert(old(self)@.take(0) =~= Seq::<TodoView>::empty());
            reveal(Seq::filter);
        }
        while i < n
            invariant
                n == self@.len(),
                i <= n,
                self.wf(),
                *self == *old(self),
                crate::templates::views_of(kept@) == active_of(self@.take(i as int)),
            decreases n - i,
        {
            if !self.todos[i].done {
                kept.push(self.todos[i].duplicate());
            }
            proof {
                lemma_take_step(self@, i as int);
                assert(crate::templates::views_of(kept@) =~= active_of(self@.take(i as int + 1)));
            }
            i = i + 1;
        }
        proof {
            assert(self@.take(n as int) =~= self@);
            lemma_active_keeps_unique(old(self)@);
            lemma_undone_le_len(old(self)@);
        }
        self.todos = kept;
    }

    /// An owned copy of the items filter `f` lets through, in order.
    pub fn filtered(&self, f: Filter) -> (r: TodoList)
        requires
            self.wf(),
        ensures
            r@ == spec_shown(self@, f),
            r.wf(),
    {
        match f {
            Filter::All => self.duplicate(),
            Filter::Active => {
                let mut kept = self.duplicate();
                kept.clear_done();
                kept
            },
            Filter::Completed => {
                let n = self.todos.len();
                let mut kept: Vec<Todo> = Vec::new();
                let mut i: usize = 0;
                proof {
                    assert(crate::templates::views_of(kept@) =~= Seq::<TodoView>::empty());
                    assert(self@.take(0) =~= Seq::<TodoView>::empty());
                    reveal(Seq::filter);
                }
                while i < n
                    invariant
                        n == self@.len(),
                        i <= n,
                        self.wf(),
                        crate::templates::views_of(kept@) == completed_of(self@.take(i as int)),
                    decreases n - i,
                {
                    if self.todos[i].done {
                        kept.push(self.todos[i].duplicate());
                    }
                    proof {
                        lemma_take_step(self@, i as int);
                        assert(crate::templates::views_of(kept@) =~= completed_of(
                            self@.take(i as int + 1),
                        ));
                    }
                    i = i + 1;
                }
                proof {
                    assert(self@.take(n as int) =~= self@);
                    lemma_completed_keeps_unique(self@);
                }
                TodoList { todos: kept }
            },
        }
    }
}

/// Filtering to the done items also keeps ids unique.
pub proof fn lemma_completed_keeps_unique(s: Seq<TodoView>)
    requires
        forall|i: int, j: int| 0 <= i < j < s.len() ==> s[i].id != s[j].id,
    ensures
        forall|i: int, j: int|
            0 <= i < j < completed_of(s).len() ==> completed_of(s)[i].id != completed_of(s)[j].id,
        forall|i: int| 0 <= i < completed_of(s).len() ==> s.contains(completed_of(s)[i]),
        completed_of(s).len() <= s.len(),
    decreases s.len(),
{
    reveal(Seq::filter);
    if s.len() > 0 {
        let d = s.drop_last();
        lemma_completed_keeps_unique(d);
        assert forall|i: int|
            0 <= i < completed_of(s).len() implies s.contains(completed_of(s)[i]) by {
            if i < completed_of(d).len() {
                let k = choose|k: int| 0 <= k < d.len() && d[k] == completed_of(d)[i];
                assert(s[k] == completed_of(s)[i]);
            } else {
                assert(s[s.len() - 1] == completed_of(s)[i]);
            }
        }
        assert forall|i: int, j: int|
            0 <= i < j < completed_of(s).len() implies completed_of(s)[i].id != completed_of(
            s,
        )[j].id by {
            if j == completed_of(s).len() - 1 && completed_of(s).len() > completed_of(d).len() {
                let k = choose|k: int| 0 <= k < d.len() && d[k] == completed_of(d)[i];
                assert(s[k].id != s[s.len() - 1].id);
            }
        }
    }
}

/// Counts the items not yet done: the remaining-count every mutating
/// response must agree with, always computed over the unfiltered list.
pub fn get_items_left(todos: &Vec<Todo>) -> (r: i32)
    requires
        todos@.len() <= 0x7fff_ffff,
    ensures
        0 <= r,
        r as nat == undone_count(crate::templates::views_of(todos@)),
{
    let ghost s = crate::templates::views_of(todos@);
    let n = todos.len();
    let mut count: i32 = 0;
    proof {
        reveal(Seq::filter);
        assert(s.take(0) =~= Seq::<TodoView>::empty());
    }
    let mut i: usize = 0;
    while i < n
        invariant
            n == todos@.len(),
            n <= 0x7fff_ffff,
            s == crate::templates::views_of(todos@),
            s.len() == n,
            i <= n,
            count >= 0,
            count <= i,
            count as nat == undone_count(s.take(i as int)),
        decreases n - i,
    {
        proof {
            lemma_take_step(s, i as int);
        }
        if !todos[i].done {
            count = count + 1;
        }
        i = i + 1;
    }
    proof {
        assert(s.take(n as int) =~= s);
    }
    count
}

/// The to-do application: the session-keyed store together with one
/// handler per action. Each handler resolves the identity's record,
/// applies one transition, persists, and composes exactly the
/// fragments the mutation implicates.
pub struct TodoApp {
    store: crate::store::KvStore<TodoList>,
}

impl TodoApp {
    /// Every stored list is well-formed.
    pub closed spec fn wf(self) -> bool {
        &&& self.store.wf()
        &&& forall|k: u128|
            self.store.contents().contains_key(k) ==> (#[trigger] self.store.contents()[k]).wf()
    }

    /// The list stored for `identity`; a client never seen has the
    /// empty list, which is a valid, fully initialized state.
    pub closed spec fn list_of(self, identity: u128) -> Seq<TodoView> {
        if self.store.contents().contains_key(identity) {
            self.store.contents()[identity]@
        } else {
            Seq::empty()
        }
    }

    /// An application with no client state yet.
    pub fn new() -> (a: TodoApp)
        ensures
            a.wf(),
            forall|identity: u128| a.list_of(identity) == Seq::<TodoView>::empty(),
    {
        TodoApp { store: crate::store::KvStore::new() }
    }

    /// A transient, request-scoped copy of the identity's record.
    fn load_list(&self, identity: u128) -> (l: TodoList)
        requires
            self.wf(),
        ensures
            l@ == self.list_of(identity),
            l.wf(),
    {
        match self.store.load(identity) {
            Some(stored) => stored.duplicate(),
            None => TodoList::new(),
        }
    }

    /// What one save does to the application's visible state.
    proof fn lemma_saved(pre: TodoApp, post: TodoApp, identity: u128, l: TodoList)
        requires
            pre.wf(),
            l.wf(),
            post.store.wf(),
            post.store.contents() == pre.store.contents().insert(identity, l),
        ensures
            post.wf(),
            post.list_of(identity) == l@,
            forall|other: u128| other != identity ==> post.list_of(other) == pre.list_of(other),
    {
        assert forall|k: u128|
            post.store.contents().contains_key(k) implies (#[trigger] post.store.contents()[k]).wf() by {
            if k != identity {
                assert(pre.store.contents()[k].wf());
            }
        }
    }

    /// Renders the full page: the list as `filter` shows it, and the
    /// remaining-count always computed over the unfiltered list.
    pub fn index(&self, identity: u128, filter: &String) -> (r: String)
        requires
            self.wf(),
        ensures
            r@ == crate::templates::spec_todo_page(
                spec_shown(self.list_of(identity), spec_parse_filter(filter@)),
                undone_count(self.list_of(identity)),
            ),
    {
        let list = self.load_list(identity);
        let f = parse_filter(filter);
        let shown = list.filtered(f);
        let count = get_items_left(&list.todos);
        proof {
            lemma_undone_le_len(list@);
        }
        let page = crate::templates::Index {
            item_count: ItemCount { items_left: count },
            todos: shown,
            filter: filter.clone(),
        };
        page.render()
    }

    /// Appends a new item with a freshly minted id, persists, and
    /// returns the new id with the new item's fragment concatenated
    /// with the updated remaining-count fragment.
    ///
    /// The one failure is an allocation the store cannot make unique
    /// (or a record it cannot grow), surfaced as a store failure and
    /// never masked by a partial write.
    pub fn add_todo(&mut self, identity: u128, name: String) -> (r: Result<
        (u128, String),
        crate::AppError,
    >)
        requires
            old(self).wf(),
        ensures
            final(self).wf(),
            forall|other: u128|
                other != identity ==> final(self).list_of(other) == old(self).list_of(other),
            r matches Ok(p) ==> {
                &&& !crate::templates::contains_id(old(self).list_of(identity), p.0)
                &&& old(self).list_of(identity).len() < 0x7fff_ffff
                &&& final(self).list_of(identity) == old(self).list_of(identity).push(
                    (TodoView { id: p.0, name: name@, done: false }),
                )
                &&& p.1@ == crate::templates::spec_todo_item(
                    (TodoView { id: p.0, name: name@, done: false }),
                ) + crate::templates::spec_item_count(undone_count(final(self).list_of(identity)))
            },
            r matches Err(e) ==> e == crate::AppError::StoreUnavailable && *final(self) == *old(self),
    {
        let mut list = self.load_list(identity);
        let id = crate::token::mint_token();
        let ghost nv = name@;
        if !list.add_item(id, name) {
            return Err(crate::AppError::StoreUnavailable);
        }
        let item = TodoItem { todo: list.todos[list.todos.len() - 1].duplicate() };
        let mut html = item.render();
        let count = ItemCount { items_left: get_items_left(&list.todos) };
        proof {
            lemma_undone_le_len(list@);
        }
        let count_html = count.render();
        html.append(count_html.as_str());
        let ghost gl = list;
        proof {
            assert(gl@ == old(self).list_of(identity).push(
                (TodoView { id: id, name: nv, done: false }),
            ));
            assert(gl@[gl@.len() - 1] == (TodoView { id: id, name: nv, done: false }));
            assert(html@ == crate::templates::spec_todo_item(
                (TodoView { id: id, name: nv, done: false }),
            ) + crate::templates::spec_item_count(undone_count(gl@)));
        }
        self.store.save(identity, list);
        proof {
            TodoApp::lemma_saved(*old(self), *self, identity, gl);
        }
        Ok((id, html))
    }

    /// Flips the done flag of the item carrying `id`, persists, and
    /// returns the item fragment concatenated with the remaining-count
    /// fragment, both over the post-mutation list. An unknown id is a
    /// not-found condition and leaves the stored state untouched.
    pub fn update_item_html(&mut self, identity: u128, id: u128) -> (r: Result<
        String,
        crate::AppError,
    >)
        requires
            old(self).wf(),
        ensures
            final(self).wf(),
            forall|other: u128|
                other != identity ==> final(self).list_of(other) == old(self).list_of(other),
            !crate::templates::contains_id(old(self).list_of(identity), id) ==> r == Err::<
                String,
                crate::AppError,
            >(crate::AppError::NotFound) && *final(self) == *old(self),
            crate::templates::contains_id(old(self).list_of(identity), id) ==> ({
                let i = crate::templates::index_of_id(old(self).list_of(identity), id);
                let t = old(self).list_of(identity)[i];
                &&& final(self).list_of(identity) == old(self).list_of(identity).update(
                    i,
                    (TodoView { id: id, name: t.name, done: !t.done }),
                )
                &&& r matches Ok(h) && h@ == crate::templates::spec_todo_item(
                    (TodoView { id: id, name: t.name, done: !t.done }),
                ) + crate::templates::spec_item_count(
                    undone_count(final(self).list_of(identity)),
                )
            }),
    {
        let mut list = self.load_list(identity);
        let toggled = match list.toggle_item(id) {
            Ok(t) => t,
            Err(e) => {
                return Err(e);
            },
        };
        let item = TodoItem { todo: toggled };
        let mut html = item.render();
        let count = ItemCount { items_left: get_items_left(&list.todos) };
        proof {
            lemma_undone_le_len(list@);
        }
        let count_html = count.render();
        html.append(count_html.as_str());
        let ghost gl = list;
        self.store.save(identity, list);
        proof {
            TodoApp::lemma_saved(*old(self), *self, identity, gl);
        }
        Ok(html)
    }

    /// Replaces the label of the item carrying `id` in place, persists,
    /// and returns the item fragment concatenated with the
    /// remaining-count fragment. An unknown id is a not-found condition
    /// and leaves the stored state untouched.
    pub fn update_item(&mut self, identity: u128, id: u128, name: String) -> (r: Result<
        String,
        crate::AppError,
    >)
        requires
            old(self).wf(),
        ensures
            final(self).wf(),
            forall|other: u128|
                other != identity ==> final(self).list_of(other) == old(self).list_of(other),
            !crate::templates::contains_id(old(self).list_of(identity), id) ==> r == Err::<
                String,
                crate::AppError,
            >(crate::AppError::NotFound) && *final(self) == *old(self),
            crate::templates::contains_id(old(self).list_of(identity), id) ==> ({
                let i = crate::templates::index_of_id(old(self).list_of(identity), id);
                let t = old(self).list_of(identity)[i];
                &&& final(self).list_of(identity) == old(self).list_of(identity).update(
                    i,
                    (TodoView { id: id, name: name@, done: t.done }),
                )
                &&& r matches Ok(h) && h@ == crate::templates::spec_todo_item(
                    (TodoView { id: id, name: name@, done: t.done }),
                ) + crate::templates::spec_item_count(
                    undone_count(final(self).list_of(identity)),
                )
            }),
    {
        let mut list = self.load_list(identity);
        let renamed = match list.rename_item(id, name) {
            Ok(t) => t,
            Err(e) => {
                return Err(e);
            },
        };
        let item = TodoItem { todo: renamed };
        let mut html = item.render();
        let count = ItemCount { items_left: get_items_left(&list.todos) };
        proof {
            lemma_undone_le_len(list@);
        }
        let count_html = count.render();
        html.append(count_html.as_str());
        let ghost gl = list;
        self.store.save(identity, list);
        proof {
            TodoApp::lemma_saved(*old(self), *self, identity, gl);
        }
        Ok(html)
    }

    /// Removes the item carrying `id` if it is present, persists, and
    /// returns the updated remaining-count fragment. Deleting an id
    /// that is already gone is a no-op, not an error: list and count
    /// are unchanged.
    pub fn delete_item(&mut self, identity: u128, id: u128) -> (r: String)
        requires
            old(self).wf(),
        ensures
            final(self).wf(),
            forall|other: u128|
                other != identity ==> final(self).list_of(other) == old(self).list_of(other),
            !crate::templates::contains_id(old(self).list_of(identity), id)
                ==> final(self).list_of(identity) == old(self).list_of(identity),
            crate::templates::contains_id(old(self).list_of(identity), id)
                ==> final(self).list_of(identity) == old(self).list_of(identity).remove(
                crate::templates::index_of_id(old(self).list_of(identity), id),
            ),
            r@ == crate::templates::spec_item_count(undone_count(final(self).list_of(identity))),
    {
        let mut list = self.load_list(identity);
        list.remove_item(id);
        let count = ItemCount { items_left: get_items_left(&list.todos) };
        proof {
            lemma_undone_le_len(list@);
        }
        let html = count.render();
        let ghost gl = list;
        self.store.save(identity, list);
        proof {
            TodoApp::lemma_saved(*old(self), *self, identity, gl);
        }
        html
    }

    /// Removes every item that is done, persists, and returns the full
    /// remaining list fragment concatenated with the updated
    /// remaining-count fragment.
    pub fn clear_completed(&mut self, identity: u128) -> (r: String)
        requires
            old(self).wf(),
        ensures
            final(self).wf(),
            forall|other: u128|
                other != identity ==> final(self).list_of(other) == old(self).list_of(other),
            final(self).list_of(identity) == active_of(old(self).list_of(identity)),
            r@ == crate::templates::spec_todo_list(final(self).list_of(identity))
                + crate::templates::spec_item_count(undone_count(final(self).list_of(identity))),
    {
        let mut list = self.load_list(identity);
        list.clear_done();
        let mut html = list.render();
        let count = ItemCount { items_left: get_items_left(&list.todos) };
        proof {
            lemma_undone_le_len(list@);
        }
        let count_html = count.render();
        html.append(count_html.as_str());
        let ghost gl = list;
        self.store.save(identity, list);
        proof {
            TodoApp::lemma_saved(*old(self), *self, identity, gl);
        }
        html
    }

    /// Renders the edit form for the item carrying `id`; read-only. An
    /// unknown id is a not-found condition.
    pub fn edit_item(&self, identity: u128, id: u128) -> (r: Result<String, crate::AppError>)
        requires
            self.wf(),
        ensures
            !crate::templates::contains_id(self.list_of(identity), id) ==> r == Err::<
                String,
                crate::AppError,
            >(crate::AppError::NotFound),
            crate::templates::contains_id(self.list_of(identity), id) ==> (r matches Ok(h)
                && h@ == crate::templates::spec_edit_item(
                self.list_of(identity)[crate::templates::index_of_id(self.list_of(identity), id)],
            )),
    {
        let list = self.load_list(identity);
        match list.find_index(id) {
            None => Err(crate::AppError::NotFound),
            Some(i) => {
                let form = crate::templates::EditItem { todo: list.todos[i].duplicate() };
                Ok(form.render())
            },
        }
    }
}

/// One mutation of a to-do list, as the remaining-count law quantifies
/// over them.
pub ghost enum ListAction {
    Add(u128, Seq<char>),
    Delete(u128),
    Toggle(u128),
}

/// What one action does to a list: exactly what the transitions do,
/// including the no-op on an unknown id and on a full list.
pub open spec fn apply_action(s: Seq<TodoView>, a: ListAction) -> Seq<TodoView> {
    match a {
        ListAction::Add(id, name) => if !contains_id(s, id) && s.len() < 0x7fff_ffff {
            s.push((TodoView { id: id, name: name, done: false }))
        } else {
            s
        },
        ListAction::Delete(id) => if contains_id(s, id) {
            s.remove(index_of_id(s, id))
        } else {
            s
        },
        ListAction::Toggle(id) => if contains_id(s, id) {
            s.update(
                index_of_id(s, id),
                (TodoView {
                    id: id,
                    name: s[index_of_id(s, id)].name,
                    done: !s[index_of_id(s, id)].done,
                }),
            )
        } else {
            s
        },
    }
}

/// The list after a whole sequence of actions, applied in order.
pub open spec fn apply_actions(s: Seq<TodoView>, actions: Seq<ListAction>) -> Seq<TodoView>
    decreases actions.len(),
{
    if actions.len() == 0 {
        s
    } else {
        apply_action(apply_actions(s, actions.drop_last()), actions.last())
    }
}

/// Each single action keeps the record well-formed.
pub proof fn lemma_action_keeps_wf(s: Seq<TodoView>, a: ListAction)
    requires
        unique_ids(s),
        s.len() <= 0x7fff_ffff,
    ensures
        unique_ids(apply_action(s, a)),
        apply_action(s, a).len() <= 0x7fff_ffff,
{
    let t = apply_action(s, a);
    match a {
        ListAction::Add(id, name) => {
            if !contains_id(s, id) && s.len() < 0x7fff_ffff {
                assert forall|i: int, j: int|
                    0 <= i < j < t.len() implies t[i].id != t[j].id by {
                    if j == t.len() - 1 {
                        assert(!(0 <= i < s.len() && s[i].id == id));
                    }
                }
            }
        },
        ListAction::Delete(id) => {
            if contains_id(s, id) {
                let k = index_of_id(s, id);
                assert forall|i: int, j: int|
                    0 <= i < j < t.len() implies t[i].id != t[j].id by {
                    let si: int = if i < k {
                        i
                    } else {
                        i + 1
                    };
                    let sj: int = if j < k {
                        j
                    } else {
                        j + 1
                    };
                    assert(t[i] == s[si] && t[j] == s[sj]);
                    assert(s[si].id != s[sj].id);
                }
            }
        },
        ListAction::Toggle(id) => {
            if contains_id(s, id) {
                assert forall|i: int, j: int|
                    0 <= i < j < t.len() implies t[i].id != t[j].id by {
                    assert(t[i].id == s[i].id && t[j].id == s[j].id);
                }
            }
        },
    }
}

/// For every sequence of add, delete and toggle actions from a
/// well-formed list: the list stays well-formed, and after the last
/// mutation (hence, by instantiating any prefix, after every mutation)
/// the remaining count equals the number of positions whose item is
/// not done.
pub proof fn lemma_any_action_sequence(s: Seq<TodoView>, actions: Seq<ListAction>)
    requires
        unique_ids(s),
        s.len() <= 0x7fff_ffff,
    ensures
        unique_ids(apply_actions(s, actions)),
        apply_actions(s, actions).len() <= 0x7fff_ffff,
        undone_count(apply_actions(s, actions)) == undone_set(apply_actions(s, actions)).len(),
    decreases actions.len(),
{
    if actions.len() > 0 {
        lemma_any_action_sequence(s, actions.drop_last());
        lemma_action_keeps_wf(apply_actions(s, actions.drop_last()), actions.last());
    }
    lemma_undone_count_is_card(apply_actions(s, actions));
}

} // verus!
