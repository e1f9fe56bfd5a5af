//! The counter/name variant: a two-state machine per client, Anonymous
//! or Named, behind a doubly indirected store.
//!
//! The externally visible client identity never doubles as the storage
//! key: `bind` allocates a second opaque state key per identity, once,
//! and the record store is keyed by that. Rotating or invalidating one
//! token never requires touching the other.

use vstd::prelude::*;

use crate::AppError;
use crate::components::CountButtonTemplate;
use crate::components::Fragment;
use crate::components::IndexTemplate;
use crate::components::NameFromTemplate;
use crate::components::NameHeaderTemplate;
use crate::components::spec_count_button;
use crate::components::spec_name_header;
use crate::components::spec_page_anon;
use crate::components::spec_page_named;
use crate::store::KvStore;

verus! {

/// The counter variant's state record: a name and a non-negative
/// count. The count only ever increases, through the increment
/// transition.
#[derive(Clone, Debug)]
pub struct CounterRecord {
    pub count: usize,
    pub name: String,
}

/// The mathematical image of a [`CounterRecord`].
pub ghost struct CounterView {
    pub count: usize,
    pub name: Seq<char>,
}

impl View for CounterRecord {
    type V = CounterView;

    open spec fn view(&self) -> CounterView {
        CounterView { count: self.count, name: self.name@ }
    }
}

impl CounterRecord {
    /// An owned copy whose view equals this one's.
    pub fn duplicate(&self) -> (r: CounterRecord)
        ensures
            r@ == self@,
    {
        CounterRecord { count: self.count, name: self.name.clone() }
    }
}

/// What one increment does to a count: adds one, saturating at the
/// machine's limit rather than wrapping.
pub open spec fn spec_inc(c: usize) -> usize {
    if c < usize::MAX {
        (c + 1) as usize
    } else {
        c
    }
}

/// The count after `n` increments from `c`.
pub open spec fn spec_inc_n(c: usize, n: nat) -> usize
    decreases n,
{
    if n == 0 {
        c
    } else {
        spec_inc(spec_inc_n(c, (n - 1) as nat))
    }
}

/// Increment called `n` times from an initial count `c` yields a
/// displayed count of exactly `c + n`, as long as the machine can hold
/// it.
pub proof fn lemma_increment_n(c: usize, n: nat)
    requires
        c + n <= usize::MAX,
    ensures
        spec_inc_n(c, n) == c + n,
    decreases n,
{
    if n > 0 {
        lemma_increment_n(c, (n - 1) as nat);
    }
}

/// The count is monotonically non-decreasing under increments, however
/// many are applied.
pub proof fn lemma_increment_monotone(c: usize, n: nat)
    ensures
        c <= spec_inc_n(c, n),
        spec_inc_n(c, n) <= spec_inc_n(c, n + 1),
    decreases n,
{
    if n > 0 {
        lemma_increment_monotone(c, (n - 1) as nat);
    }
}

/// The counter application: a binding store from client identity to
/// state key, and a record store from state key to record.
pub struct CounterApp {
    bindings: KvStore<u128>,
    records: KvStore<CounterRecord>,
}

impl CounterApp {
    /// Whether `identity` is bound to a state key.
    pub closed spec fn bound(self, identity: u128) -> bool {
        self.bindings.contents().contains_key(identity)
    }

    /// The state key bound to `identity`.
    pub closed spec fn key_of(self, identity: u128) -> u128 {
        self.bindings.contents()[identity]
    }

    /// Whether `k` already serves some identity as its state key.
    pub closed spec fn key_in_use(self, k: u128) -> bool {
        self.bindings.spec_has_value(k)
    }

    /// The state of `identity`: `None` is Anonymous, `Some` is Named.
    pub closed spec fn state_of(self, identity: u128) -> Option<CounterView> {
        if self.bound(identity) && self.records.contents().contains_key(self.key_of(identity)) {
            Some(self.records.contents()[self.key_of(identity)]@)
        } else {
            None
        }
    }

    /// Well-formed: both stores are; no two identities share a state
    /// key; every record sits under some identity's state key.
    pub closed spec fn wf(self) -> bool {
        &&& self.bindings.wf()
        &&& self.records.wf()
        &&& forall|a: u128, b: u128|
            #![trigger self.bindings.contents()[a], self.bindings.contents()[b]]
            self.bindings.contents().contains_key(a) && self.bindings.contents().contains_key(b)
                && a != b ==> self.bindings.contents()[a] != self.bindings.contents()[b]
        &&& forall|k: u128|
            #[trigger] self.records.contents().contains_key(k) ==> self.bindings.spec_has_value(k)
    }

    /// An application with no client state yet.
    pub fn new() -> (a: CounterApp)
        ensures
            a.wf(),
            forall|identity: u128| !a.bound(identity),
            forall|identity: u128| a.state_of(identity) is None,
    {
        CounterApp { bindings: KvStore::new(), records: KvStore::new() }
    }

    /// Returns the existing state key for `identity`, or allocates and
    /// persists a fresh one atomically if none exists. Idempotent:
    /// repeated calls for the same identity return the same key.
    ///
    /// Binding alone never conjures a record, so every client's state
    /// is left as it was. The one failure is an allocation the store
    /// cannot make unique, surfaced as a store failure.
    pub fn bind(&mut self, identity: u128) -> (r: Result<u128, AppError>)
        requires
            old(self).wf(),
        ensures
            final(self).wf(),
            forall|other: u128| final(self).state_of(other) == old(self).state_of(other),
            old(self).bound(identity) ==> r == Ok::<u128, AppError>(old(self).key_of(identity))
                && *final(self) == *old(self),
            !old(self).bound(identity) ==> match r {
                Ok(k) => {
                    &&& !old(self).key_in_use(k)
                    &&& final(self).bound(identity)
                    &&& final(self).key_of(identity) == k
                    &&& forall|other: u128|
                        other != identity ==> final(self).bound(other) == old(self).bound(other)
                            && (old(self).bound(other) ==> final(self).key_of(other) == old(
                            self,
                        ).key_of(other))
                },
                Err(e) => e == AppError::StoreUnavailable && *final(self) == *old(self),
            },
    {
        match self.bindings.load(identity) {
            Some(k) => Ok(*k),
            None => {
                let candidate = crate::token::mint_token();
                if self.bindings.has_value(candidate) {
                    return Err(AppError::StoreUnavailable);
                }
                self.bindings.save(identity, candidate);
                proof {
                    let pre = *old(self);
                    let post = *self;
                    assert(!pre.records.contents().contains_key(candidate)) by {
                        if pre.records.contents().contains_key(candidate) {
                            let w = pre.bindings.lemma_value_witness(candidate);
                        }
                    }
                    assert forall|k: u128|
                        #[trigger] post.records.contents().contains_key(
                            k,
                        ) implies post.bindings.spec_has_value(k) by {
                        assert(pre.bindings.spec_has_value(k));
                        let w = pre.bindings.lemma_value_witness(k);
                        assert(w != identity);
                        assert(post.bindings.contents().contains_key(w)
                            && post.bindings.contents()[w] == k);
                        post.bindings.lemma_value_intro(w);
                    }
                    assert forall|a: u128, b: u128|
                        #![trigger post.bindings.contents()[a], post.bindings.contents()[b]]
                        post.bindings.contents().contains_key(a)
                            && post.bindings.contents().contains_key(b) && a
                            != b implies post.bindings.contents()[a]
                            != post.bindings.contents()[b] by {
                        if a == identity && post.bindings.contents()[b] == candidate {
                            pre.bindings.lemma_value_intro(b);
                        }
                        if b == identity && post.bindings.contents()[a] == candidate {
                            pre.bindings.lemma_value_intro(a);
                        }
                    }
                    assert forall|other: u128|
                        post.state_of(other) == pre.state_of(other) by {
                        if other != identity {
                            assert(post.bound(other) == pre.bound(other));
                        } else {
                            assert(!post.records.contents().contains_key(candidate));
                        }
                    }
                }
                Ok(candidate)
            },
        }
    }

    /// The Anonymous to Named transition: binds a state key, builds the
    /// record from the submitted name and initial count, persists it,
    /// and returns the full set of Named fragments, the name header
    /// then the counter.
    pub fn submit_name(&mut self, identity: u128, name: String, initial_count: usize) -> (r: Result<
        String,
        AppError,
    >)
        requires
            old(self).wf(),
        ensures
            final(self).wf(),
            forall|other: u128|
                other != identity ==> final(self).state_of(other) == old(self).state_of(other),
            match r {
                Ok(html) => final(self).state_of(identity) == Some(
                    (CounterView { count: initial_count, name: name@ }),
                ) && html@ == spec_name_header(name@) + spec_count_button(initial_count as nat),
                Err(e) => e == AppError::StoreUnavailable && *final(self) == *old(self),
            },
    {
        let key = match self.bind(identity) {
            Ok(k) => k,
            Err(e) => {
                return Err(e);
            },
        };
        let header = NameHeaderTemplate { name };
        let mut html = header.render();
        let button = CountButtonTemplate { count: initial_count };
        let button_html = button.render();
        html.append(button_html.as_str());
        let record = CounterRecord { count: initial_count, name: header.name };
        let ghost mid = *self;
        let ghost grecord = record;
        self.records.save(key, record);
        proof {
            let post = *self;
            assert(mid.bound(identity) && mid.key_of(identity) == key);
            assert forall|k: u128|
                #[trigger] post.records.contents().contains_key(
                    k,
                ) implies post.bindings.spec_has_value(k) by {
                if k != key {
                    assert(mid.records.contents().contains_key(k));
                } else {
                    assert(post.bindings.contents().contains_key(identity)
                        && post.bindings.contents()[identity] == key);
                    post.bindings.lemma_value_intro(identity);
                }
            }
            assert(post.state_of(identity) == Some(grecord@));
            assert forall|other: u128|
                other != identity implies post.state_of(other) == mid.state_of(other) by {
                if mid.bound(other) {
                    assert(mid.key_of(other) != key);
                }
            }
        }
        Ok(html)
    }

    /// The Named to Named transition: adds one to the count, persists,
    /// and returns the counter fragment only; the name header is
    /// unaffected and is not re-sent. A client with no bound record is
    /// a no-session condition and no record is fabricated for it. The
    /// count saturates at the machine's limit rather than wrap.
    pub fn increment(&mut self, identity: u128) -> (r: Result<String, AppError>)
        requires
            old(self).wf(),
        ensures
            final(self).wf(),
            forall|other: u128|
                other != identity ==> final(self).state_of(other) == old(self).state_of(other),
            old(self).state_of(identity) is None ==> r == Err::<String, AppError>(
                AppError::NoSession,
            ) && *final(self) == *old(self),
            old(self).state_of(identity) matches Some(v) ==> ({
                &&& final(self).state_of(identity) == Some(
                    (CounterView { count: spec_inc(v.count), name: v.name }),
                )
                &&& v.count <= spec_inc(v.count)
                &&& (r matches Ok(h) && h@ == spec_count_button(spec_inc(v.count) as nat))
            }),
    {
        let key = match self.bindings.load(identity) {
            Some(k) => *k,
            None => {
                return Err(AppError::NoSession);
            },
        };
        let mut record = match self.records.load(key) {
            Some(stored) => stored.duplicate(),
            None => {
                return Err(AppError::NoSession);
            },
        };
        if record.count < usize::MAX {
            record.count = record.count + 1;
        }
        let button = CountButtonTemplate { count: record.count };
        let html = button.render();
        let ghost mid = *old(self);
        let ghost grecord = record;
        self.records.save(key, record);
        proof {
            let post = *self;
            assert forall|k: u128|
                #[trigger] post.records.contents().contains_key(
                    k,
                ) implies post.bindings.spec_has_value(k) by {
                if k != key {
                    assert(mid.records.contents().contains_key(k));
                } else {
                    assert(mid.records.contents().contains_key(key));
                }
                assert(mid.bindings.spec_has_value(k));
            }
            assert(post.state_of(identity) == Some(grecord@));
            assert forall|other: u128|
                other != identity implies post.state_of(other) == mid.state_of(other) by {
                if mid.bound(other) {
                    assert(mid.key_of(other) != key);
                }
            }
        }
        Ok(html)
    }

    /// Idempotent, read-only: renders the full page, the Named view if
    /// a record exists and the Anonymous name-entry form otherwise.
    pub fn view(&self, identity: u128) -> (r: String)
        requires
            self.wf(),
        ensures
            self.state_of(identity) is None ==> r@ == spec_page_anon(),
            self.state_of(identity) matches Some(v) ==> r@ == spec_page_named(
                v.name,
                v.count as nat,
            ),
    {
        let content = match self.bindings.load(identity) {
            None => Fragment::NameForm(NameFromTemplate {  }),
            Some(k) => match self.records.load(*k) {
                None => Fragment::NameForm(NameFromTemplate {  }),
                Some(record) => Fragment::Named(
                    NameHeaderTemplate { name: record.name.clone() },
                    CountButtonTemplate { count: record.count },
                ),
            },
        };
        let page = IndexTemplate { content };
        let r = page.render();
        proof {
            let st = self.state_of(identity);
            if st is Some {
                assert(r@ =~= spec_page_named(st.unwrap().name, st.unwrap().count as nat));
            } else {
                assert(r@ =~= spec_page_anon());
            }
        }
        r
    }
}

} // verus!
